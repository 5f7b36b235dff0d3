//! The bundled generation of the wire format.
//!
//! Keys travel as hexadecimal text, secret keys packed where they are sparse.
//! Everything else travels in buffers: the message, the bundle of encrypted
//! key shares, the bundle of nonce and encrypted message, the re-encrypted
//! share, the plaintext. The policy is not passed from call to call. It is
//! written into the bundles, and the nodes are numbered canonically.

use crate::buffers::{lookup_of, BufferTable};
use crate::bundle::{
    all_fit, copy_runs, decode_message_bundle, decode_value_bundle, encode_key_bundle,
    encode_message_bundle, encode_value_bundle, fits_field, lemma_key_bundle_round_trip,
    lemma_message_bundle_round_trip, locate_share, names_share,
    parse_key_bundle, parse_message_bundle, parse_value_bundle, runs, value_bundle_bytes,
    KeyBundleView, MessageBundleView,
};
use crate::dispatch::{
    accept, accept_sealed, all_chosen_known, check_decrypt, decrypt_fault, sealed_fault,
    DecryptCall, EncryptCall, KeyPair, ReEncryptCall, Sealed, NONCE_LEN,
};
use crate::error::LheError;
use crate::hexcodec::{decode, decode_all, encode, hex_decoded, hex_text, all_hex};
use crate::keycodec::{compressed, decompressed, try_compress_sk, try_decompress_sk};
use crate::policy::{
    canonical_fault, canonical_policy, check_canonical, lemma_canonical_shape, valid_policy,
    ThresholdPolicy, MAX_CANONICAL,
};
use vstd::prelude::*;
use vstd::slice::slice_to_vec;

verus! {

/// A fresh key pair.
#[derive(Clone, Debug, PartialEq)]
pub struct KeyGenResult {
    pub sk: Vec<u8>,
    pub pk: Vec<u8>,
}

/// A fresh key pair as text.
#[derive(Clone, Debug, PartialEq)]
pub struct KeyGenResultS {
    pub sk: String,
    pub pk: String,
}

impl KeyGenResult {
    /// The key pair as text: the secret key packed where it is sparse, both
    /// keys in hexadecimal.
    pub fn to_json(&self) -> (s: KeyGenResultS)
        ensures
            s.sk@ == hex_text(compressed(self.sk@)),
            s.pk@ == hex_text(self.pk@),
    {
        KeyGenResultS { sk: try_compress_sk(self.sk.as_slice()), pk: encode(self.pk.as_slice()) }
    }
}

/// The policy under which keys are made: two of three nodes, numbered
/// canonically. A key pair does not depend on the policy it is later used
/// under, so any valid one serves.
pub fn keygen_v2_call() -> (policy: ThresholdPolicy)
    ensures
        policy@ == canonical_policy(2, 3),
        policy@.valid(),
        policy@.shaped(),
{
    ThresholdPolicy::canonical(2, 3)
}

/// Makes the result of key generation of the engine's answer: `CryptoEngine`
/// where the engine failed.
pub fn _keygen_v2(reply: Option<KeyPair>) -> (r: Result<KeyGenResult, LheError>)
    ensures
        match r {
            Ok(keys) => reply.is_some() && keys.sk == reply.unwrap().sk && keys.pk
                == reply.unwrap().pk,
            Err(e) => e == LheError::CryptoEngine && reply.is_none(),
        },
{
    let pair = accept(reply)?;
    Ok(KeyGenResult { sk: pair.sk, pk: pair.pk })
}

/// What to encrypt, and for whom.
#[derive(Clone, Debug, PartialEq)]
pub struct EncryptParam {
    pub t: usize,
    pub n: usize,
    /// The public keys of the nodes, one for each.
    pub node_pks: Vec<Vec<u8>>,
    /// The address of the message.
    pub msg_ptr: usize,
    /// The length of the message.
    pub msg_len: usize,
}

/// What to encrypt, and for whom, with the keys as text.
#[derive(Clone, Debug, PartialEq)]
pub struct EncryptParamS {
    pub t: usize,
    pub n: usize,
    pub node_pks: Vec<String>,
    pub msg_ptr: usize,
    pub msg_len: usize,
}

impl EncryptParam {
    /// Reads the keys out of their text. `Parameter` where one of them is not
    /// hexadecimal.
    pub fn from_json(param: &EncryptParamS) -> (r: Result<EncryptParam, LheError>)
        ensures
            match r {
                Ok(p) => {
                    &&& p.t == param.t
                    &&& p.n == param.n
                    &&& p.msg_ptr == param.msg_ptr
                    &&& p.msg_len == param.msg_len
                    &&& p.node_pks@.len() == param.node_pks@.len()
                    &&& forall|i: int|
                        0 <= i < param.node_pks@.len() ==> hex_decoded(param.node_pks@[i]@) == Some(
                            (#[trigger] p.node_pks@[i])@,
                        )
                },
                Err(e) => e == LheError::Parameter && !all_hex(param.node_pks@),
            },
    {
        let node_pks = decode_all(&param.node_pks)?;
        Ok(
            EncryptParam {
                t: param.t,
                n: param.n,
                node_pks,
                msg_ptr: param.msg_ptr,
                msg_len: param.msg_len,
            },
        )
    }
}

/// Where the two bundles of an encryption lie.
#[derive(Clone, Debug, PartialEq)]
pub struct EncryptResult {
    /// The address of the bundle of encrypted key shares.
    pub enc_sks_ptr: usize,
    /// The length of that bundle.
    pub enc_sks_len: usize,
    /// The address of the bundle of nonce and encrypted message.
    pub emsg_ptr: usize,
    /// The length of that bundle.
    pub emsg_len: usize,
}

/// What is wrong with the numbers and keys of a request to encrypt: what is
/// wrong with `(t, n)` as a policy that is numbered canonically; otherwise
/// `Parameter` where there is not one public key for each of the `n` nodes.
pub open spec fn encrypt_v2_numbers_fault(param: &EncryptParam) -> Option<LheError> {
    if canonical_fault(param.t as int, param.n as int).is_some() {
        canonical_fault(param.t as int, param.n as int)
    } else if param.node_pks@.len() != param.n {
        Some(LheError::Parameter)
    } else {
        None
    }
}

/// Checks the numbers and keys of a request to encrypt.
fn encrypt_v2_numbers(param: &EncryptParam) -> (r: Result<(), LheError>)
    ensures
        match r {
            Ok(_) => encrypt_v2_numbers_fault(param).is_none(),
            Err(e) => encrypt_v2_numbers_fault(param) == Some(e),
        },
{
    check_canonical(param.t, param.n)?;
    if param.node_pks.len() != param.n {
        return Err(LheError::Parameter);
    }
    Ok(())
}

/// Says what the engine is to encrypt. The numbers and keys are checked
/// first; then `Pointer` where the message is not a live buffer of the
/// length given, or that length is zero.
pub fn encrypt_v2_call(param: &EncryptParam, table: &BufferTable) -> (r: Result<
    EncryptCall,
    LheError,
>)
    ensures
        match r {
            Ok(call) => {
                &&& encrypt_v2_numbers_fault(param).is_none()
                &&& call.policy@ == canonical_policy(param.t as int, param.n as int)
                &&& runs(call.node_pks@) == runs(param.node_pks@)
                &&& lookup_of(table@, param.msg_ptr, param.msg_len) == Some(call.msg@)
            },
            Err(e) => if encrypt_v2_numbers_fault(param).is_some() {
                encrypt_v2_numbers_fault(param) == Some(e)
            } else {
                e == LheError::Pointer && lookup_of(table@, param.msg_ptr, param.msg_len).is_none()
            },
        },
{
    encrypt_v2_numbers(param)?;
    let msg = table.lookup(param.msg_ptr, param.msg_len)?;
    Ok(
        EncryptCall {
            policy: ThresholdPolicy::canonical(param.t, param.n),
            node_pks: copy_runs(&param.node_pks),
            msg: slice_to_vec(msg),
        },
    )
}

/// What is wrong with the engine's answer to a request to encrypt: what is
/// wrong with the numbers and keys of the request; otherwise `CryptoEngine`
/// where the answer is not accepted; otherwise `Parameter` where a share or
/// the encrypted message is too long to be written into a bundle.
pub open spec fn encrypt_v2_fault(param: &EncryptParam, reply: Option<Sealed>) -> Option<LheError> {
    if encrypt_v2_numbers_fault(param).is_some() {
        encrypt_v2_numbers_fault(param)
    } else if sealed_fault(param.n as int, reply).is_some() {
        sealed_fault(param.n as int, reply)
    } else if !all_fit(runs(reply.unwrap().shares@)) || !fits_field(reply.unwrap().enc_msg@.len()) {
        Some(LheError::Parameter)
    } else {
        None
    }
}

/// The bundle of encrypted key shares that an encryption hands out.
pub open spec fn key_bundle_of(param: &EncryptParam, sealed: Sealed) -> Seq<u8> {
    (KeyBundleView { t: param.t as int, n: param.n as int, shares: runs(sealed.shares@) }).bytes()
}

/// The bundle of nonce and encrypted message that an encryption hands out.
pub open spec fn message_bundle_of(param: &EncryptParam, sealed: Sealed) -> Seq<u8> {
    (MessageBundleView {
        t: param.t as int,
        n: param.n as int,
        nonce: sealed.nonce@,
        enc_msg: sealed.enc_msg@,
    }).bytes()
}

/// Makes the result of an encryption of the engine's answer. The shares go
/// into one bundle and the nonce and the encrypted message into another,
/// each with the policy in front, and both are handed out as buffers. Where
/// anything is wrong, nothing is handed out.
pub fn _encrypt_v2(param: &EncryptParam, reply: Option<Sealed>, table: &mut BufferTable) -> (r:
    Result<EncryptResult, LheError>)
    ensures
        match r {
            Ok(res) => {
                &&& encrypt_v2_fault(param, reply).is_none()
                &&& res.enc_sks_ptr == old(table).issued() + 1
                &&& res.enc_sks_len == key_bundle_of(param, reply.unwrap()).len()
                &&& res.emsg_ptr == old(table).issued() + 2
                &&& res.emsg_len == message_bundle_of(param, reply.unwrap()).len()
                &&& final(table)@ == old(table)@.insert(
                    res.enc_sks_ptr,
                    key_bundle_of(param, reply.unwrap()),
                ).insert(res.emsg_ptr, message_bundle_of(param, reply.unwrap()))
                &&& final(table).issued() == old(table).issued() + 2
            },
            Err(e) => {
                &&& encrypt_v2_fault(param, reply) == Some(e)
                &&& final(table)@ == old(table)@
                &&& final(table).issued() == old(table).issued()
            },
        },
{
    encrypt_v2_numbers(param)?;
    let sealed = accept_sealed(param.n, reply)?;
    let t = param.t as u32;
    let n = param.n as u32;
    let enc_sks = encode_key_bundle(t, n, &sealed.shares)?;
    let emsg = encode_message_bundle(t, n, sealed.nonce.as_slice(), sealed.enc_msg.as_slice())?;
    let enc_sks_len = enc_sks.len();
    let emsg_len = emsg.len();
    let enc_sks_ptr = table.publish(enc_sks);
    let emsg_ptr = table.publish(emsg);
    Ok(EncryptResult { enc_sks_ptr, enc_sks_len, emsg_ptr, emsg_len })
}

/// What an encryption hands out is read back by the calls that follow: the
/// bundle of shares as the policy and the shares that the engine made, in
/// their order, and the bundle of the message as the policy, the nonce and
/// the encrypted message.
pub proof fn lemma_bundles_read_back(param: &EncryptParam, sealed: Sealed)
    requires
        encrypt_v2_fault(param, Some(sealed)).is_none(),
    ensures
        parse_key_bundle(key_bundle_of(param, sealed)) == Some(
            KeyBundleView { t: param.t as int, n: param.n as int, shares: runs(sealed.shares@) },
        ),
        runs(sealed.shares@).len() == param.n,
        parse_message_bundle(message_bundle_of(param, sealed)) == Some(
            MessageBundleView {
                t: param.t as int,
                n: param.n as int,
                nonce: sealed.nonce@,
                enc_msg: sealed.enc_msg@,
            },
        ),
{
    lemma_key_bundle_round_trip(
        KeyBundleView { t: param.t as int, n: param.n as int, shares: runs(sealed.shares@) },
    );
    lemma_message_bundle_round_trip(
        MessageBundleView {
            t: param.t as int,
            n: param.n as int,
            nonce: sealed.nonce@,
            enc_msg: sealed.enc_msg@,
        },
    );
}

/// Which share to re-encrypt, by whom and for whom.
#[derive(Clone, Debug, PartialEq)]
pub struct ReEncryptParam {
    /// The number of the share in its bundle, counted from one.
    pub enc_sk_index: usize,
    /// The secret key of the node that holds the share.
    pub node_sk: Vec<u8>,
    /// The public key of the consumer.
    pub consumer_pk: Vec<u8>,
    /// The address of the bundle of encrypted key shares.
    pub enc_sks_ptr: usize,
    /// The length of that bundle.
    pub enc_sks_len: usize,
}

/// Which share to re-encrypt, by whom and for whom, with the keys as text.
#[derive(Clone, Debug, PartialEq)]
pub struct ReEncryptParamS {
    pub enc_sk_index: usize,
    pub node_sk: String,
    pub consumer_pk: String,
    pub enc_sks_ptr: usize,
    pub enc_sks_len: usize,
}

impl ReEncryptParam {
    /// Reads the keys out of their text, the secret key unpacked where it
    /// was packed. `Parameter` where one of them is not hexadecimal.
    pub fn from_json(param: &ReEncryptParamS) -> (r: Result<ReEncryptParam, LheError>)
        ensures
            match r {
                Ok(p) => {
                    &&& p.enc_sk_index == param.enc_sk_index
                    &&& p.enc_sks_ptr == param.enc_sks_ptr
                    &&& p.enc_sks_len == param.enc_sks_len
                    &&& hex_decoded(param.node_sk@).is_some()
                    &&& p.node_sk@ == decompressed(hex_decoded(param.node_sk@).unwrap())
                    &&& hex_decoded(param.consumer_pk@) == Some(p.consumer_pk@)
                },
                Err(e) => e == LheError::Parameter && (hex_decoded(param.node_sk@).is_none()
                    || hex_decoded(param.consumer_pk@).is_none()),
            },
    {
        let node_sk = try_decompress_sk(&param.node_sk)?;
        let consumer_pk = decode(param.consumer_pk.as_str())?;
        Ok(
            ReEncryptParam {
                enc_sk_index: param.enc_sk_index,
                node_sk,
                consumer_pk,
                enc_sks_ptr: param.enc_sks_ptr,
                enc_sks_len: param.enc_sks_len,
            },
        )
    }
}

/// Where the re-encrypted share lies.
#[derive(Clone, Debug, PartialEq)]
pub struct ReEncryptResult {
    /// The address of the bundle that holds the re-encrypted share.
    pub reenc_ptr: usize,
    /// The length of that bundle.
    pub reenc_len: usize,
}

/// Says what the engine is to re-encrypt. The bundle of shares is looked up
/// and walked, the share asked for is taken out of it, and the policy is the
/// one written in the bundle, numbered canonically. In this order: `Pointer`
/// where the bundle is not a live buffer of the length given; `Bounds` where
/// it is not well formed; `Parameter` where it has no share of that number,
/// or the share is empty; then what is wrong with its `(t, n)` as a policy
/// that is numbered canonically.
pub fn reencrypt_v2_call(param: &ReEncryptParam, table: &BufferTable) -> (r: Result<
    ReEncryptCall,
    LheError,
>)
    ensures
        match lookup_of(table@, param.enc_sks_ptr, param.enc_sks_len) {
            None => r == Err::<ReEncryptCall, LheError>(LheError::Pointer),
            Some(data) => match parse_key_bundle(data) {
                None => r == Err::<ReEncryptCall, LheError>(LheError::Bounds),
                Some(bundle) => if !names_share(bundle, param.enc_sk_index as int) {
                    r == Err::<ReEncryptCall, LheError>(LheError::Parameter)
                } else if canonical_fault(bundle.t, bundle.n).is_some() {
                    r == Err::<ReEncryptCall, LheError>(
                        canonical_fault(bundle.t, bundle.n).unwrap(),
                    )
                } else {
                    &&& r.is_ok()
                    &&& r.unwrap().policy@ == canonical_policy(bundle.t, bundle.n)
                    &&& r.unwrap().share@ == bundle.shares[param.enc_sk_index - 1]
                    &&& r.unwrap().node_sk@ == param.node_sk@
                    &&& r.unwrap().consumer_pk@ == param.consumer_pk@
                },
            },
        },
{
    let data = table.lookup(param.enc_sks_ptr, param.enc_sks_len)?;
    let located = locate_share(data, param.enc_sk_index)?;
    let t = located.t as usize;
    let n = located.n as usize;
    check_canonical(t, n)?;
    Ok(
        ReEncryptCall {
            policy: ThresholdPolicy::canonical(t, n),
            share: located.share,
            node_sk: slice_to_vec(param.node_sk.as_slice()),
            consumer_pk: slice_to_vec(param.consumer_pk.as_slice()),
        },
    )
}

/// Makes the result of a re-encryption of the engine's answer: the share
/// goes into a bundle of its own, which is handed out as a buffer.
/// `CryptoEngine` where the engine failed; `Parameter` where the share is too
/// long to be written into a bundle. Where anything is wrong, nothing is
/// handed out.
pub fn _reencrypt_v2(reply: Option<Vec<u8>>, table: &mut BufferTable) -> (r: Result<
    ReEncryptResult,
    LheError,
>)
    ensures
        match r {
            Ok(res) => {
                &&& reply.is_some()
                &&& fits_field(reply.unwrap()@.len())
                &&& res.reenc_ptr == old(table).issued() + 1
                &&& res.reenc_len == 4 + reply.unwrap()@.len()
                &&& final(table)@ == old(table)@.insert(
                    res.reenc_ptr,
                    value_bundle_bytes(reply.unwrap()@),
                )
                &&& final(table).issued() == old(table).issued() + 1
            },
            Err(e) => {
                &&& match reply {
                    None => e == LheError::CryptoEngine,
                    Some(share) => e == LheError::Parameter && !fits_field(share@.len()),
                }
                &&& final(table)@ == old(table)@
                &&& final(table).issued() == old(table).issued()
            },
        },
{
    let share = accept(reply)?;
    let bundle = encode_value_bundle(share.as_slice())?;
    let reenc_len = bundle.len();
    let reenc_ptr = table.publish(bundle);
    Ok(ReEncryptResult { reenc_ptr, reenc_len })
}

/// What is needed to decrypt.
#[derive(Clone, Debug, PartialEq)]
pub struct DecryptParam {
    /// The numbers of the nodes whose shares are supplied.
    pub chosen_indices: Vec<u16>,
    /// The re-encrypted shares, in the order of `chosen_indices`.
    pub reenc_sks: Vec<Vec<u8>>,
    /// The secret key of the consumer.
    pub consumer_sk: Vec<u8>,
    /// The address of the bundle of nonce and encrypted message.
    pub emsg_ptr: usize,
    /// The length of that bundle.
    pub emsg_len: usize,
}

/// What is needed to decrypt, with the shares and the key as text.
#[derive(Clone, Debug, PartialEq)]
pub struct DecryptParamS {
    pub chosen_indices: Vec<u16>,
    /// Each share as the hexadecimal text of the bundle that holds it.
    pub reenc_sks: Vec<String>,
    pub consumer_sk: String,
    pub emsg_ptr: usize,
    pub emsg_len: usize,
}

/// The share that the text of a bundle of one value holds: `Parameter` where
/// the text is not hexadecimal, `Bounds` where the bundle is not well formed.
pub open spec fn unwrapped(text: Seq<char>) -> Result<Seq<u8>, LheError> {
    match hex_decoded(text) {
        None => Err(LheError::Parameter),
        Some(bytes) => match parse_value_bundle(bytes) {
            None => Err(LheError::Bounds),
            Some(value) => Ok(value),
        },
    }
}

/// The shares that a list of such texts holds, or what is wrong with the
/// first text that holds none.
pub open spec fn unwrapped_all(texts: Seq<String>) -> Result<Seq<Seq<u8>>, LheError>
    decreases texts.len(),
{
    if texts.len() == 0 {
        Ok(Seq::empty())
    } else {
        match unwrapped_all(texts.drop_last()) {
            Err(e) => Err(e),
            Ok(done) => match unwrapped(texts.last()@) {
                Err(e) => Err(e),
                Ok(value) => Ok(done.push(value)),
            },
        }
    }
}

/// Reads the shares out of the texts of their bundles.
fn unwrap_all(texts: &Vec<String>) -> (r: Result<Vec<Vec<u8>>, LheError>)
    ensures
        match r {
            Ok(items) => unwrapped_all(texts@) == Ok::<Seq<Seq<u8>>, LheError>(runs(items@)),
            Err(e) => unwrapped_all(texts@) == Err::<Seq<Seq<u8>>, LheError>(e),
        },
{
    let mut items: Vec<Vec<u8>> = Vec::new();
    let mut i: usize = 0;
    assert(texts@.take(0) =~= Seq::<String>::empty());
    assert(runs(items@) =~= Seq::<Seq<u8>>::empty());
    while i < texts.len()
        invariant
            i <= texts@.len(),
            items@.len() == i,
            unwrapped_all(texts@.take(i as int)) == Ok::<Seq<Seq<u8>>, LheError>(runs(items@)),
        decreases texts@.len() - i,
    {
        let ghost done = runs(items@);
        proof {
            assert(texts@.take(i + 1).drop_last() =~= texts@.take(i as int));
            assert(texts@.take(i + 1).last() == texts@[i as int]);
        }
        let bytes = match decode(texts[i].as_str()) {
            Ok(bytes) => bytes,
            Err(e) => {
                proof {
                    lemma_unwrapped_stops(texts@, i + 1);
                }
                return Err(e);
            },
        };
        let value = match decode_value_bundle(bytes.as_slice()) {
            Ok(value) => value,
            Err(e) => {
                proof {
                    lemma_unwrapped_stops(texts@, i + 1);
                }
                return Err(e);
            },
        };
        items.push(value);
        assert(runs(items@) =~= done.push(value@));
        i += 1;
    }
    assert(texts@.take(texts@.len() as int) =~= texts@);
    Ok(items)
}

/// Where the first `k` texts hold no list of shares, the whole list holds
/// none, for the same reason.
proof fn lemma_unwrapped_stops(texts: Seq<String>, k: int)
    requires
        0 <= k <= texts.len(),
        unwrapped_all(texts.take(k)).is_err(),
    ensures
        unwrapped_all(texts) == unwrapped_all(texts.take(k)),
    decreases texts.len(),
{
    if k == texts.len() {
        assert(texts.take(k) =~= texts);
    } else {
        assert(texts.drop_last().take(k) =~= texts.take(k));
        lemma_unwrapped_stops(texts.drop_last(), k);
    }
}

impl DecryptParam {
    /// Reads the shares out of the texts of their bundles, and the key out
    /// of its text, unpacked where it was packed. What is wrong with the
    /// first share that cannot be read; otherwise `Parameter` where the key
    /// is not hexadecimal.
    pub fn from_json(param: &DecryptParamS) -> (r: Result<DecryptParam, LheError>)
        ensures
            match unwrapped_all(param.reenc_sks@) {
                Err(e) => r == Err::<DecryptParam, LheError>(e),
                Ok(shares) => match hex_decoded(param.consumer_sk@) {
                    None => r == Err::<DecryptParam, LheError>(LheError::Parameter),
                    Some(key) => {
                        &&& r.is_ok()
                        &&& r.unwrap().chosen_indices@ == param.chosen_indices@
                        &&& runs(r.unwrap().reenc_sks@) == shares
                        &&& r.unwrap().consumer_sk@ == decompressed(key)
                        &&& r.unwrap().emsg_ptr == param.emsg_ptr
                        &&& r.unwrap().emsg_len == param.emsg_len
                    },
                },
            },
    {
        let reenc_sks = unwrap_all(&param.reenc_sks)?;
        let consumer_sk = try_decompress_sk(&param.consumer_sk)?;
        Ok(
            DecryptParam {
                chosen_indices: slice_to_vec(param.chosen_indices.as_slice()),
                reenc_sks,
                consumer_sk,
                emsg_ptr: param.emsg_ptr,
                emsg_len: param.emsg_len,
            },
        )
    }
}

/// Where the plaintext lies.
#[derive(Clone, Debug, PartialEq)]
pub struct DecryptResult {
    /// The address of the plaintext.
    pub msg_ptr: usize,
    /// The length of the plaintext.
    pub msg_len: usize,
}

/// What is wrong with a request to decrypt under the policy `(t, n)` that a
/// bundle names: what is wrong with `(t, n)` as a policy that is numbered
/// canonically; otherwise what is wrong with the request under that policy.
pub open spec fn decrypt_v2_fault(
    t: int,
    n: int,
    chosen: Seq<u16>,
    shares: nat,
    nonce: nat,
) -> Option<LheError> {
    if canonical_fault(t, n).is_some() {
        canonical_fault(t, n)
    } else {
        decrypt_fault(canonical_policy(t, n), chosen, shares, nonce)
    }
}

/// Decryption over a bundle is asked of the engine exactly where the bundle
/// names a valid policy of no more nodes than can be numbered, the shares
/// pair up with the chosen numbers, there are at least `t` of them, every
/// chosen number is one of `1, 2, .., n`, and the nonce has the length of a
/// nonce.
pub proof fn lemma_decrypt_v2_admission(t: int, n: int, chosen: Seq<u16>, shares: nat, nonce: nat)
    ensures
        decrypt_v2_fault(t, n, chosen, shares, nonce).is_none() <==> {
            &&& valid_policy(t, n)
            &&& n <= MAX_CANONICAL
            &&& chosen.len() == shares
            &&& shares >= t
            &&& forall|j: int| 0 <= j < chosen.len() ==> 1 <= #[trigger] chosen[j] <= n
            &&& nonce == NONCE_LEN
        },
{
    if valid_policy(t, n) && n <= MAX_CANONICAL {
        lemma_canonical_shape(n as nat);
        let policy = canonical_policy(t, n);
        assert(all_chosen_known(policy, chosen) <==> forall|j: int|
            0 <= j < chosen.len() ==> 1 <= #[trigger] chosen[j] <= n);
    }
}

/// Says what the engine is to combine and decrypt. The bundle of nonce and
/// encrypted message is looked up and read, and the policy is the one
/// written in it, numbered canonically. In this order: `Pointer` where the
/// bundle is not a live buffer of the length given; `Bounds` where it is not
/// well formed; then what is wrong with the request to decrypt.
pub fn decrypt_v2_call(param: &DecryptParam, table: &BufferTable) -> (r: Result<
    DecryptCall,
    LheError,
>)
    ensures
        match lookup_of(table@, param.emsg_ptr, param.emsg_len) {
            None => r == Err::<DecryptCall, LheError>(LheError::Pointer),
            Some(data) => match parse_message_bundle(data) {
                None => r == Err::<DecryptCall, LheError>(LheError::Bounds),
                Some(bundle) => match decrypt_v2_fault(
                    bundle.t,
                    bundle.n,
                    param.chosen_indices@,
                    param.reenc_sks@.len(),
                    bundle.nonce.len(),
                ) {
                    Some(e) => r == Err::<DecryptCall, LheError>(e),
                    None => {
                        &&& r.is_ok()
                        &&& r.unwrap().policy@ == canonical_policy(bundle.t, bundle.n)
                        &&& r.unwrap().chosen_indices@ == param.chosen_indices@
                        &&& runs(r.unwrap().shares@) == runs(param.reenc_sks@)
                        &&& r.unwrap().consumer_sk@ == param.consumer_sk@
                        &&& r.unwrap().nonce@ == bundle.nonce
                        &&& r.unwrap().enc_msg@ == bundle.enc_msg
                    },
                },
            },
        },
{
    let data = table.lookup(param.emsg_ptr, param.emsg_len)?;
    let bundle = decode_message_bundle(data)?;
    let t = bundle.t as usize;
    let n = bundle.n as usize;
    check_canonical(t, n)?;
    let policy = ThresholdPolicy::canonical(t, n);
    check_decrypt(
        &policy,
        param.chosen_indices.as_slice(),
        param.reenc_sks.len(),
        bundle.nonce.len(),
    )?;
    Ok(
        DecryptCall {
            policy,
            chosen_indices: slice_to_vec(param.chosen_indices.as_slice()),
            shares: copy_runs(&param.reenc_sks),
            consumer_sk: slice_to_vec(param.consumer_sk.as_slice()),
            nonce: bundle.nonce,
            enc_msg: bundle.enc_msg,
        },
    )
}

/// Makes the result of a decryption of the engine's answer: the plaintext is
/// handed out as a buffer. `CryptoEngine`, and nothing is handed out, where
/// the engine failed.
pub fn _decrypt_v2(reply: Option<Vec<u8>>, table: &mut BufferTable) -> (r: Result<
    DecryptResult,
    LheError,
>)
    ensures
        match r {
            Ok(res) => {
                &&& reply.is_some()
                &&& res.msg_ptr == old(table).issued() + 1
                &&& res.msg_len == reply.unwrap()@.len()
                &&& final(table)@ == old(table)@.insert(res.msg_ptr, reply.unwrap()@)
                &&& final(table).issued() == old(table).issued() + 1
            },
            Err(e) => {
                &&& e == LheError::CryptoEngine
                &&& reply.is_none()
                &&& final(table)@ == old(table)@
                &&& final(table).issued() == old(table).issued()
            },
        },
{
    let msg = accept(reply)?;
    let msg_len = msg.len();
    let msg_ptr = table.publish(msg);
    Ok(DecryptResult { msg_ptr, msg_len })
}

} // verus!
