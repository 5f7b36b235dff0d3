use lhe::buffers::BufferTable;
use lhe::bundle::{
    decode_key_bundle, decode_message_bundle, encode_key_bundle, encode_message_bundle,
    encode_value_bundle,
};
use lhe::dispatch::{DecryptCall, EncryptCall, KeyPair, ReEncryptCall, Sealed};
use lhe::error::LheError;
use lhe::hexcodec::encode;
use lhe::lhe_v2::{
    _decrypt_v2, _encrypt_v2, _keygen_v2, _reencrypt_v2, decrypt_v2_call, encrypt_v2_call,
    keygen_v2_call, reencrypt_v2_call, DecryptParam, DecryptParamS, EncryptParam, EncryptParamS,
    KeyGenResult, ReEncryptParam, ReEncryptParamS,
};

// A stand-in for the engine: it keeps the shape of the real one and none of
// its secrecy. A key pair is a tag and the tag reversed; a share names its
// node and carries the key of the message; re-encryption retags a share for
// the consumer; decryption wants `t` retagged shares that agree.

fn toy_keypair(tag: u8) -> KeyPair {
    KeyPair { sk: vec![tag, 1, 2, 3], pk: vec![3, 2, 1, tag] }
}

fn toy_encrypt(call: &EncryptCall) -> Option<Sealed> {
    let key = 0x5au8;
    let mut shares = Vec::new();
    for (i, pk) in call.node_pks.iter().enumerate() {
        shares.push(vec![b'S', call.policy.indices[i] as u8, pk[3], key]);
    }
    let enc_msg = call.msg.iter().map(|b| b ^ key).collect();
    Some(Sealed { shares, nonce: vec![7u8; 12], enc_msg })
}

fn toy_reencrypt(call: &ReEncryptCall) -> Option<Vec<u8>> {
    if call.share.len() != 4 || call.share[0] != b'S' || call.share[2] != call.node_sk[0] {
        return None;
    }
    Some(vec![b'R', call.share[1], call.consumer_pk[3], call.share[3]])
}

fn toy_decrypt(call: &DecryptCall) -> Option<Vec<u8>> {
    let mut key = None;
    for (i, share) in call.shares.iter().enumerate() {
        if share.len() != 4 || share[0] != b'R' || share[2] != call.consumer_sk[0] {
            return None;
        }
        if share[1] as u16 != call.chosen_indices[i] {
            return None;
        }
        key = Some(share[3]);
    }
    let key = key?;
    Some(call.enc_msg.iter().map(|b| b ^ key).collect())
}

fn three_nodes() -> Vec<KeyPair> {
    vec![toy_keypair(11), toy_keypair(12), toy_keypair(13)]
}

fn encrypted(table: &mut BufferTable, t: usize, msg: &[u8]) -> lhe::lhe_v2::EncryptResult {
    let nodes = three_nodes();
    let msg_ptr = table.publish(msg.to_vec());
    let param = EncryptParam {
        t,
        n: 3,
        node_pks: nodes.iter().map(|k| k.pk.clone()).collect(),
        msg_ptr,
        msg_len: msg.len(),
    };
    let call = encrypt_v2_call(&param, table).ok().unwrap();
    _encrypt_v2(&param, toy_encrypt(&call), table).ok().unwrap()
}

#[test]
fn keygen_uses_two_of_three_nodes_numbered_canonically() {
    let policy = keygen_v2_call();
    assert_eq!((policy.t, policy.n), (2, 3));
    assert_eq!(policy.indices, vec![1, 2, 3]);
    let keys = _keygen_v2(Some(toy_keypair(5))).ok().unwrap();
    assert_eq!(keys.sk, vec![5, 1, 2, 3]);
    assert_eq!(keys.pk, vec![3, 2, 1, 5]);
    assert_eq!(_keygen_v2(None).err(), Some(LheError::CryptoEngine));
}

#[test]
fn keygen_result_packs_a_sparse_secret_key() {
    let mut sk = Vec::new();
    for i in 0..1024u32 {
        sk.extend_from_slice(&(i % 2).to_be_bytes());
    }
    let keys = KeyGenResult { sk, pk: vec![0xab, 0xcd] };
    let text = keys.to_json();
    assert_eq!(text.sk, "11".repeat(256));
    assert_eq!(text.pk, "abcd");
    let keys = KeyGenResult { sk: vec![9, 9, 9, 9], pk: vec![] };
    let text = keys.to_json();
    assert_eq!(text.sk, "09090909");
    assert_eq!(text.pk, "");
}

#[test]
fn end_to_end_two_of_three_recovers_hello() {
    let mut table = BufferTable::new();
    let nodes = three_nodes();
    let consumer = toy_keypair(77);
    let sealed = encrypted(&mut table, 2, b"hello");

    let mut reenc_sks = Vec::new();
    for index in [1usize, 2] {
        let param = ReEncryptParam {
            enc_sk_index: index,
            node_sk: nodes[index - 1].sk.clone(),
            consumer_pk: consumer.pk.clone(),
            enc_sks_ptr: sealed.enc_sks_ptr,
            enc_sks_len: sealed.enc_sks_len,
        };
        let call = reencrypt_v2_call(&param, &table).ok().unwrap();
        assert_eq!((call.policy.t, call.policy.n), (2, 3));
        assert_eq!(call.policy.indices, vec![1, 2, 3]);
        let res = _reencrypt_v2(toy_reencrypt(&call), &mut table).ok().unwrap();
        let bundle = table.lookup(res.reenc_ptr, res.reenc_len).unwrap().to_vec();
        reenc_sks.push(encode(&bundle));
    }

    let text = DecryptParamS {
        chosen_indices: vec![1, 2],
        reenc_sks,
        consumer_sk: encode(&consumer.sk),
        emsg_ptr: sealed.emsg_ptr,
        emsg_len: sealed.emsg_len,
    };
    let param = DecryptParam::from_json(&text).ok().unwrap();
    let call = decrypt_v2_call(&param, &table).ok().unwrap();
    let res = _decrypt_v2(toy_decrypt(&call), &mut table).ok().unwrap();
    assert_eq!(res.msg_len, 5);
    assert_eq!(table.lookup(res.msg_ptr, res.msg_len), Ok(&b"hello"[..]));
}

#[test]
fn encrypt_hands_out_two_bundles_with_the_policy_in_front() {
    let mut table = BufferTable::new();
    let sealed = encrypted(&mut table, 2, b"hello");
    assert_eq!((sealed.enc_sks_ptr, sealed.emsg_ptr), (2, 3));
    let keys = decode_key_bundle(table.lookup(sealed.enc_sks_ptr, sealed.enc_sks_len).unwrap())
        .ok()
        .unwrap();
    assert_eq!((keys.t, keys.n), (2, 3));
    assert_eq!(keys.shares.len(), 3);
    assert_eq!(keys.shares[1], vec![b'S', 2, 12, 0x5a]);
    assert_eq!(sealed.enc_sks_len, 12 + 3 * 8);
    let msg = decode_message_bundle(table.lookup(sealed.emsg_ptr, sealed.emsg_len).unwrap())
        .ok()
        .unwrap();
    assert_eq!((msg.t, msg.n), (2, 3));
    assert_eq!(msg.nonce, vec![7u8; 12]);
    assert_eq!(msg.enc_msg.len(), 5);
    assert_eq!(sealed.emsg_len, 8 + 4 + 12 + 4 + 5);
}

#[test]
fn encrypt_params_are_read_from_hex() {
    let text = EncryptParamS {
        t: 2,
        n: 3,
        node_pks: vec!["0a0b".to_string(), "FF".to_string(), "".to_string()],
        msg_ptr: 4,
        msg_len: 5,
    };
    let param = EncryptParam::from_json(&text).ok().unwrap();
    assert_eq!(param.node_pks, vec![vec![10u8, 11], vec![255], vec![]]);
    assert_eq!((param.t, param.n, param.msg_ptr, param.msg_len), (2, 3, 4, 5));
    let text = EncryptParamS {
        t: 2,
        n: 3,
        node_pks: vec!["0a".to_string(), "0".to_string()],
        msg_ptr: 4,
        msg_len: 5,
    };
    assert_eq!(EncryptParam::from_json(&text).err(), Some(LheError::Parameter));
}

#[test]
fn encrypt_refuses_what_is_wrong_in_the_documented_order() {
    let mut table = BufferTable::new();
    let msg_ptr = table.publish(b"hello".to_vec());
    let pks = vec![vec![1u8, 1, 1, 1]; 3];
    let bad_policy = EncryptParam { t: 4, n: 3, node_pks: pks.clone(), msg_ptr: 99, msg_len: 5 };
    assert_eq!(encrypt_v2_call(&bad_policy, &table).err(), Some(LheError::Policy));
    let few_keys =
        EncryptParam { t: 2, n: 3, node_pks: pks[..2].to_vec(), msg_ptr: 99, msg_len: 5 };
    assert_eq!(encrypt_v2_call(&few_keys, &table).err(), Some(LheError::Parameter));
    let bad_ptr = EncryptParam { t: 2, n: 3, node_pks: pks.clone(), msg_ptr: 99, msg_len: 5 };
    assert_eq!(encrypt_v2_call(&bad_ptr, &table).err(), Some(LheError::Pointer));
    let bad_len = EncryptParam { t: 2, n: 3, node_pks: pks.clone(), msg_ptr, msg_len: 4 };
    assert_eq!(encrypt_v2_call(&bad_len, &table).err(), Some(LheError::Pointer));
    let zero_len = EncryptParam { t: 2, n: 3, node_pks: pks.clone(), msg_ptr, msg_len: 0 };
    assert_eq!(encrypt_v2_call(&zero_len, &table).err(), Some(LheError::Pointer));
    let good = EncryptParam { t: 2, n: 3, node_pks: pks, msg_ptr, msg_len: 5 };
    assert!(encrypt_v2_call(&good, &table).is_ok());
}

#[test]
fn failed_encrypt_hands_out_nothing() {
    let mut table = BufferTable::new();
    let msg_ptr = table.publish(b"hello".to_vec());
    let param =
        EncryptParam { t: 2, n: 3, node_pks: vec![vec![1u8, 1, 1, 1]; 3], msg_ptr, msg_len: 5 };
    assert_eq!(_encrypt_v2(&param, None, &mut table).err(), Some(LheError::CryptoEngine));
    let short = Sealed { shares: vec![vec![1u8]; 2], nonce: vec![0u8; 12], enc_msg: vec![1] };
    assert_eq!(_encrypt_v2(&param, Some(short), &mut table).err(), Some(LheError::CryptoEngine));
    let bad = EncryptParam { t: 0, n: 3, node_pks: vec![vec![1u8]; 3], msg_ptr, msg_len: 5 };
    let full = Sealed { shares: vec![vec![1u8]; 3], nonce: vec![0u8; 12], enc_msg: vec![1] };
    assert_eq!(_encrypt_v2(&bad, Some(full), &mut table).err(), Some(LheError::Policy));
    // the next address is still the second one
    assert_eq!(table.publish(vec![1]), 2);
}

#[test]
fn reencrypt_params_unpack_the_secret_key() {
    let text = ReEncryptParamS {
        enc_sk_index: 2,
        node_sk: "1b".repeat(256),
        consumer_pk: "0102".to_string(),
        enc_sks_ptr: 5,
        enc_sks_len: 6,
    };
    let param = ReEncryptParam::from_json(&text).ok().unwrap();
    assert_eq!(param.node_sk.len(), 4096);
    assert_eq!(&param.node_sk[0..16], &[0, 0, 0, 0, 0, 0, 0, 1, 7, 0xe0, 0, 0, 0, 0, 0, 0]);
    assert_eq!(param.consumer_pk, vec![1, 2]);
    assert_eq!((param.enc_sk_index, param.enc_sks_ptr, param.enc_sks_len), (2, 5, 6));
    let text = ReEncryptParamS {
        enc_sk_index: 2,
        node_sk: "0g".to_string(),
        consumer_pk: "0102".to_string(),
        enc_sks_ptr: 5,
        enc_sks_len: 6,
    };
    assert_eq!(ReEncryptParam::from_json(&text).err(), Some(LheError::Parameter));
    let text = ReEncryptParamS {
        enc_sk_index: 2,
        node_sk: "00".to_string(),
        consumer_pk: "012".to_string(),
        enc_sks_ptr: 5,
        enc_sks_len: 6,
    };
    assert_eq!(ReEncryptParam::from_json(&text).err(), Some(LheError::Parameter));
}

#[test]
fn reencrypt_refuses_what_is_wrong_in_the_documented_order() {
    let mut table = BufferTable::new();
    let sealed = encrypted(&mut table, 2, b"hello");
    let param = |index: usize, ptr: usize, len: usize| ReEncryptParam {
        enc_sk_index: index,
        node_sk: vec![11, 1, 2, 3],
        consumer_pk: vec![3, 2, 1, 77],
        enc_sks_ptr: ptr,
        enc_sks_len: len,
    };
    let ok = param(1, sealed.enc_sks_ptr, sealed.enc_sks_len);
    assert!(reencrypt_v2_call(&ok, &table).is_ok());
    let dead = param(1, 50, sealed.enc_sks_len);
    assert_eq!(reencrypt_v2_call(&dead, &table).err(), Some(LheError::Pointer));
    let short = param(1, sealed.enc_sks_ptr, sealed.enc_sks_len - 1);
    assert_eq!(reencrypt_v2_call(&short, &table).err(), Some(LheError::Pointer));
    // a buffer that is no bundle of shares
    let wrong = param(1, sealed.emsg_ptr, sealed.emsg_len);
    assert_eq!(reencrypt_v2_call(&wrong, &table).err(), Some(LheError::Bounds));
    let none = param(0, sealed.enc_sks_ptr, sealed.enc_sks_len);
    assert_eq!(reencrypt_v2_call(&none, &table).err(), Some(LheError::Parameter));
    let beyond = param(4, sealed.enc_sks_ptr, sealed.enc_sks_len);
    assert_eq!(reencrypt_v2_call(&beyond, &table).err(), Some(LheError::Parameter));
    // a well-formed bundle under a policy that is none
    let bundle = encode_key_bundle(3, 2, &vec![vec![1u8], vec![2u8]]).unwrap();
    let len = bundle.len();
    let ptr = table.publish(bundle);
    assert_eq!(reencrypt_v2_call(&param(1, ptr, len), &table).err(), Some(LheError::Policy));
    assert_eq!(reencrypt_v2_call(&param(3, ptr, len), &table).err(), Some(LheError::Parameter));
}

#[test]
fn reencrypt_result_is_a_bundle_of_one_value() {
    let mut table = BufferTable::new();
    let res = _reencrypt_v2(Some(vec![1, 2, 3]), &mut table).ok().unwrap();
    assert_eq!((res.reenc_ptr, res.reenc_len), (1, 7));
    assert_eq!(table.lookup(1, 7), Ok(&[0u8, 0, 0, 3, 1, 2, 3][..]));
    assert_eq!(_reencrypt_v2(None, &mut table).err(), Some(LheError::CryptoEngine));
    assert_eq!(table.publish(vec![]), 2);
}

#[test]
fn decrypt_params_unwrap_each_share_from_its_bundle() {
    let text = DecryptParamS {
        chosen_indices: vec![2, 3],
        reenc_sks: vec!["00000002abcd".to_string(), "00000000".to_string()],
        consumer_sk: "0a".to_string(),
        emsg_ptr: 1,
        emsg_len: 2,
    };
    let param = DecryptParam::from_json(&text).ok().unwrap();
    assert_eq!(param.reenc_sks, vec![vec![0xab, 0xcd], vec![]]);
    assert_eq!(param.chosen_indices, vec![2, 3]);
    assert_eq!(param.consumer_sk, vec![10]);
    assert_eq!((param.emsg_ptr, param.emsg_len), (1, 2));
}

#[test]
fn decrypt_params_report_the_first_share_that_cannot_be_read() {
    let with = |shares: Vec<&str>, sk: &str| DecryptParamS {
        chosen_indices: vec![1],
        reenc_sks: shares.iter().map(|s| s.to_string()).collect(),
        consumer_sk: sk.to_string(),
        emsg_ptr: 1,
        emsg_len: 2,
    };
    // the length passes the end
    let text = with(vec!["00000003abcd"], "0a");
    assert_eq!(DecryptParam::from_json(&text).err(), Some(LheError::Bounds));
    // bytes after the value
    let text = with(vec!["00000001abcd"], "0a");
    assert_eq!(DecryptParam::from_json(&text).err(), Some(LheError::Bounds));
    // no bundle at all
    let text = with(vec![""], "0a");
    assert_eq!(DecryptParam::from_json(&text).err(), Some(LheError::Bounds));
    let text = with(vec!["00000001ab", "zz", "00000003abcd"], "0a");
    assert_eq!(DecryptParam::from_json(&text).err(), Some(LheError::Parameter));
    let text = with(vec!["00000001ab", "00000003abcd", "zz"], "0a");
    assert_eq!(DecryptParam::from_json(&text).err(), Some(LheError::Bounds));
    let text = with(vec!["00000001ab"], "0");
    assert_eq!(DecryptParam::from_json(&text).err(), Some(LheError::Parameter));
}

#[test]
fn decrypt_refuses_what_is_wrong_in_the_documented_order() {
    let mut table = BufferTable::new();
    let sealed = encrypted(&mut table, 2, b"hello");
    let share = |i: u8| vec![b'R', i, 77, 0x5a];
    let param = |chosen: Vec<u16>, shares: Vec<Vec<u8>>, ptr: usize, len: usize| DecryptParam {
        chosen_indices: chosen,
        reenc_sks: shares,
        consumer_sk: vec![77, 1, 2, 3],
        emsg_ptr: ptr,
        emsg_len: len,
    };
    let (ptr, len) = (sealed.emsg_ptr, sealed.emsg_len);
    assert!(decrypt_v2_call(&param(vec![1, 2], vec![share(1), share(2)], ptr, len), &table).is_ok());
    assert!(decrypt_v2_call(&param(vec![3, 1, 2], vec![share(3), share(1), share(2)], ptr, len), &table).is_ok());
    let p = param(vec![1, 2], vec![share(1), share(2)], 40, len);
    assert_eq!(decrypt_v2_call(&p, &table).err(), Some(LheError::Pointer));
    let p = param(vec![1, 2], vec![share(1), share(2)], ptr, 0);
    assert_eq!(decrypt_v2_call(&p, &table).err(), Some(LheError::Pointer));
    let p = param(vec![1, 2], vec![share(1), share(2)], sealed.enc_sks_ptr, sealed.enc_sks_len);
    assert_eq!(decrypt_v2_call(&p, &table).err(), Some(LheError::Bounds));
    let p = param(vec![1], vec![share(1)], ptr, len);
    assert_eq!(decrypt_v2_call(&p, &table).err(), Some(LheError::CryptoEngine));
    let p = param(vec![4], vec![share(4)], ptr, len);
    assert_eq!(decrypt_v2_call(&p, &table).err(), Some(LheError::CryptoEngine));
    let p = param(vec![], vec![], ptr, len);
    assert_eq!(decrypt_v2_call(&p, &table).err(), Some(LheError::CryptoEngine));
    let p = param(vec![1, 4], vec![share(1), share(4)], ptr, len);
    assert_eq!(decrypt_v2_call(&p, &table).err(), Some(LheError::Parameter));
    let p = param(vec![1, 2], vec![share(1)], ptr, len);
    assert_eq!(decrypt_v2_call(&p, &table).err(), Some(LheError::Parameter));
}

#[test]
fn decrypt_with_too_few_shares_under_three_of_three_is_refused() {
    let mut table = BufferTable::new();
    let sealed = encrypted(&mut table, 3, b"hello");
    let share = |i: u8| vec![b'R', i, 77, 0x5a];
    let param = DecryptParam {
        chosen_indices: vec![1, 2],
        reenc_sks: vec![share(1), share(2)],
        consumer_sk: vec![77, 1, 2, 3],
        emsg_ptr: sealed.emsg_ptr,
        emsg_len: sealed.emsg_len,
    };
    assert_eq!(decrypt_v2_call(&param, &table).err(), Some(LheError::CryptoEngine));
    // nothing was handed out: the next address follows the three of the encryption
    assert_eq!(table.publish(vec![1]), 4);
}

#[test]
fn policy_beyond_the_canonical_numbering_is_refused() {
    let mut table = BufferTable::new();
    let msg_ptr = table.publish(b"hello".to_vec());
    let param = EncryptParam {
        t: 2,
        n: 65536,
        node_pks: vec![vec![1u8]; 65536],
        msg_ptr,
        msg_len: 5,
    };
    assert_eq!(encrypt_v2_call(&param, &table).err(), Some(LheError::Parameter));
    let full = Sealed { shares: vec![vec![1u8]; 65536], nonce: vec![0u8; 12], enc_msg: vec![1] };
    assert_eq!(_encrypt_v2(&param, Some(full), &mut table).err(), Some(LheError::Parameter));
    let most = EncryptParam {
        t: 2,
        n: 65535,
        node_pks: vec![vec![1u8]; 65535],
        msg_ptr,
        msg_len: 5,
    };
    let call = encrypt_v2_call(&most, &table).ok().unwrap();
    assert_eq!(call.policy.indices.len(), 65535);
    assert_eq!(call.policy.indices[65534], 65535);

    let bundle = encode_key_bundle(2, 65536, &vec![vec![1u8], vec![2u8]]).unwrap();
    let len = bundle.len();
    let ptr = table.publish(bundle);
    let reenc = ReEncryptParam {
        enc_sk_index: 1,
        node_sk: vec![1],
        consumer_pk: vec![2],
        enc_sks_ptr: ptr,
        enc_sks_len: len,
    };
    assert_eq!(reencrypt_v2_call(&reenc, &table).err(), Some(LheError::Parameter));

    let bundle = encode_message_bundle(2, 70000, &[0u8; 12], &[1, 2, 3]).unwrap();
    let len = bundle.len();
    let ptr = table.publish(bundle);
    let dec = DecryptParam {
        chosen_indices: vec![1, 2],
        reenc_sks: vec![vec![1u8], vec![2u8]],
        consumer_sk: vec![1],
        emsg_ptr: ptr,
        emsg_len: len,
    };
    assert_eq!(decrypt_v2_call(&dec, &table).err(), Some(LheError::Parameter));
    // with too few shares as well, the policy is still what is reported
    let dec = DecryptParam {
        chosen_indices: vec![1],
        reenc_sks: vec![vec![1u8]],
        consumer_sk: vec![1],
        emsg_ptr: ptr,
        emsg_len: len,
    };
    assert_eq!(decrypt_v2_call(&dec, &table).err(), Some(LheError::Parameter));
}

#[test]
fn decrypt_result_hands_out_the_plaintext() {
    let mut table = BufferTable::new();
    let res = _decrypt_v2(Some(b"hello".to_vec()), &mut table).ok().unwrap();
    assert_eq!((res.msg_ptr, res.msg_len), (1, 5));
    assert_eq!(table.lookup(1, 5), Ok(&b"hello"[..]));
    assert_eq!(_decrypt_v2(None, &mut table).err(), Some(LheError::CryptoEngine));
    assert_eq!(table.release(1), Ok(()));
    assert_eq!(table.release(1), Err(LheError::Pointer));
}

#[test]
fn share_wrapped_in_a_bundle_reads_back_through_hex() {
    let bundle = encode_value_bundle(&[b'R', 1, 77, 0x5a]).unwrap();
    let text = DecryptParamS {
        chosen_indices: vec![1],
        reenc_sks: vec![encode(&bundle)],
        consumer_sk: "4d010203".to_string(),
        emsg_ptr: 1,
        emsg_len: 1,
    };
    let param = DecryptParam::from_json(&text).ok().unwrap();
    assert_eq!(param.reenc_sks, vec![vec![b'R', 1, 77, 0x5a]]);
    assert_eq!(param.consumer_sk, vec![77, 1, 2, 3]);
}
