//! The inline generation of the wire format.
//!
//! Every run of bytes travels as hexadecimal text inside the call itself:
//! keys, shares, the nonce and the encrypted message. Only the message to
//! encrypt and the plaintext travel as bytes. Secret keys are not packed. The
//! policy is passed with every call, with the numbers of its nodes.

use crate::bundle::runs;
use crate::dispatch::{
    accept, accept_sealed, ask_decrypt, ask_encrypt, ask_reencrypt, decrypt_fault, derive_policy,
    encrypt_fault, policy_fault, sealed_fault, DecryptCall, EncryptCall, KeyPair, ReEncryptCall,
    Sealed,
};
use crate::error::LheError;
use crate::hexcodec::{all_hex, decode, decode_all, encode, encode_all, hex_decoded, hex_text};
use crate::policy::{PolicyView, ThresholdPolicy};
use vstd::prelude::*;
use vstd::slice::slice_to_vec;

verus! {

/// The policy under which a key pair is made.
#[derive(Clone, Debug, PartialEq)]
pub struct KeyGenParam {
    pub t: usize,
    pub n: usize,
    /// The numbers of the nodes.
    pub indices: Vec<u16>,
}

/// A fresh key pair.
#[derive(Clone, Debug, PartialEq)]
pub struct KeyGenResult {
    pub sk: Vec<u8>,
    pub pk: Vec<u8>,
}

/// A fresh key pair as text.
#[derive(Clone, Debug, PartialEq)]
pub struct KeyGenResultS {
    pub sk: String,
    pub pk: String,
}

impl KeyGenResult {
    /// The key pair in hexadecimal.
    pub fn to_json(&self) -> (s: KeyGenResultS)
        ensures
            s.sk@ == hex_text(self.sk@),
            s.pk@ == hex_text(self.pk@),
    {
        KeyGenResultS { sk: encode(self.sk.as_slice()), pk: encode(self.pk.as_slice()) }
    }
}

/// The policy that a call names.
pub open spec fn policy_of(t: usize, n: usize, indices: Vec<u16>) -> PolicyView {
    PolicyView { t: t as int, n: n as int, indices: indices@ }
}

/// Says under which policy the engine is to make a key pair, or what is wrong
/// with the policy.
pub fn keygen_call(param: &KeyGenParam) -> (r: Result<ThresholdPolicy, LheError>)
    ensures
        match r {
            Ok(policy) => policy@ == policy_of(param.t, param.n, param.indices) && policy_fault(
                policy@,
            ).is_none(),
            Err(e) => policy_fault(policy_of(param.t, param.n, param.indices)) == Some(e),
        },
{
    derive_policy(param.t, param.n, param.indices.as_slice())
}

/// Makes the result of key generation of the engine's answer: `CryptoEngine`
/// where the engine failed.
pub fn _keygen(reply: Option<KeyPair>) -> (r: Result<KeyGenResult, LheError>)
    ensures
        match r {
            Ok(keys) => reply.is_some() && keys.sk == reply.unwrap().sk && keys.pk
                == reply.unwrap().pk,
            Err(e) => e == LheError::CryptoEngine && reply.is_none(),
        },
{
    let pair = accept(reply)?;
    Ok(KeyGenResult { sk: pair.sk, pk: pair.pk })
}

/// What to encrypt, and for whom.
#[derive(Clone, Debug, PartialEq)]
pub struct EncryptParam {
    pub t: usize,
    pub n: usize,
    /// The numbers of the nodes.
    pub indices: Vec<u16>,
    /// The public keys of the nodes, one for each.
    pub node_pks: Vec<Vec<u8>>,
    /// The message.
    pub msg: Vec<u8>,
}

/// What to encrypt, and for whom, with the keys as text.
#[derive(Clone, Debug, PartialEq)]
pub struct EncryptParamS {
    pub t: usize,
    pub n: usize,
    pub indices: Vec<u16>,
    pub node_pks: Vec<String>,
    pub msg: Vec<u8>,
}

impl EncryptParam {
    /// Reads the keys out of their text. `Parameter` where one of them is not
    /// hexadecimal.
    pub fn from_json(param: &EncryptParamS) -> (r: Result<EncryptParam, LheError>)
        ensures
            match r {
                Ok(p) => {
                    &&& p.t == param.t
                    &&& p.n == param.n
                    &&& p.indices@ == param.indices@
                    &&& p.msg@ == param.msg@
                    &&& p.node_pks@.len() == param.node_pks@.len()
                    &&& forall|i: int|
                        0 <= i < param.node_pks@.len() ==> hex_decoded(param.node_pks@[i]@) == Some(
                            (#[trigger] p.node_pks@[i])@,
                        )
                },
                Err(e) => e == LheError::Parameter && !all_hex(param.node_pks@),
            },
    {
        let node_pks = decode_all(&param.node_pks)?;
        Ok(
            EncryptParam {
                t: param.t,
                n: param.n,
                indices: slice_to_vec(param.indices.as_slice()),
                node_pks,
                msg: slice_to_vec(param.msg.as_slice()),
            },
        )
    }
}

/// The shares, the nonce and the encrypted message of an encryption.
#[derive(Clone, Debug, PartialEq)]
pub struct EncryptResult {
    /// The encrypted key shares, one for each node.
    pub enc_sks: Vec<Vec<u8>>,
    pub nonce: Vec<u8>,
    pub enc_msg: Vec<u8>,
}

/// The result of an encryption as text.
#[derive(Clone, Debug, PartialEq)]
pub struct EncryptResultS {
    pub enc_sks: Vec<String>,
    pub nonce: String,
    pub enc_msg: String,
}

impl EncryptResult {
    /// The result in hexadecimal, field by field.
    pub fn to_json(&self) -> (s: EncryptResultS)
        ensures
            s.enc_sks@.len() == self.enc_sks@.len(),
            forall|i: int|
                0 <= i < self.enc_sks@.len() ==> (#[trigger] s.enc_sks@[i])@ == hex_text(
                    self.enc_sks@[i]@,
                ),
            s.nonce@ == hex_text(self.nonce@),
            s.enc_msg@ == hex_text(self.enc_msg@),
    {
        EncryptResultS {
            enc_sks: encode_all(&self.enc_sks),
            nonce: encode(self.nonce.as_slice()),
            enc_msg: encode(self.enc_msg.as_slice()),
        }
    }
}

/// Says what the engine is to encrypt, or what is wrong with the policy or
/// the number of keys.
pub fn encrypt_call(param: &EncryptParam) -> (r: Result<EncryptCall, LheError>)
    ensures
        match encrypt_fault(policy_of(param.t, param.n, param.indices), param.node_pks@.len()) {
            Some(e) => r == Err::<EncryptCall, LheError>(e),
            None => {
                &&& r.is_ok()
                &&& r.unwrap().policy@ == policy_of(param.t, param.n, param.indices)
                &&& runs(r.unwrap().node_pks@) == runs(param.node_pks@)
                &&& r.unwrap().msg@ == param.msg@
            },
        },
{
    let policy = derive_policy(param.t, param.n, param.indices.as_slice())?;
    ask_encrypt(policy, &param.node_pks, param.msg.as_slice())
}

/// Makes the result of an encryption of the engine's answer. `CryptoEngine`
/// where the engine failed or its answer is not one share for each of the
/// `n` nodes with a nonce of the right length.
pub fn _encrypt(n: usize, reply: Option<Sealed>) -> (r: Result<EncryptResult, LheError>)
    ensures
        match r {
            Ok(res) => {
                &&& sealed_fault(n as int, reply).is_none()
                &&& res.enc_sks == reply.unwrap().shares
                &&& res.enc_sks@.len() == n
                &&& res.nonce == reply.unwrap().nonce
                &&& res.enc_msg == reply.unwrap().enc_msg
            },
            Err(e) => sealed_fault(n as int, reply) == Some(e),
        },
{
    let sealed = accept_sealed(n, reply)?;
    Ok(EncryptResult { enc_sks: sealed.shares, nonce: sealed.nonce, enc_msg: sealed.enc_msg })
}

/// Which share to re-encrypt, by whom and for whom.
#[derive(Clone, Debug, PartialEq)]
pub struct ReEncryptParam {
    pub t: usize,
    pub n: usize,
    /// The numbers of the nodes.
    pub indices: Vec<u16>,
    /// The encrypted key share of the node.
    pub enc_sk: Vec<u8>,
    /// The secret key of the node.
    pub node_sk: Vec<u8>,
    /// The public key of the consumer.
    pub consumer_pk: Vec<u8>,
}

/// Which share to re-encrypt, by whom and for whom, as text.
#[derive(Clone, Debug, PartialEq)]
pub struct ReEncryptParamS {
    pub t: usize,
    pub n: usize,
    pub indices: Vec<u16>,
    pub enc_sk: String,
    pub node_sk: String,
    pub consumer_pk: String,
}

impl ReEncryptParam {
    /// Reads the share and the keys out of their text. `Parameter` where one
    /// of the three is not hexadecimal.
    pub fn from_json(param: &ReEncryptParamS) -> (r: Result<ReEncryptParam, LheError>)
        ensures
            match r {
                Ok(p) => {
                    &&& p.t == param.t
                    &&& p.n == param.n
                    &&& p.indices@ == param.indices@
                    &&& hex_decoded(param.enc_sk@) == Some(p.enc_sk@)
                    &&& hex_decoded(param.node_sk@) == Some(p.node_sk@)
                    &&& hex_decoded(param.consumer_pk@) == Some(p.consumer_pk@)
                },
                Err(e) => e == LheError::Parameter && (hex_decoded(param.enc_sk@).is_none()
                    || hex_decoded(param.node_sk@).is_none() || hex_decoded(
                    param.consumer_pk@,
                ).is_none()),
            },
    {
        let enc_sk = decode(param.enc_sk.as_str())?;
        let node_sk = decode(param.node_sk.as_str())?;
        let consumer_pk = decode(param.consumer_pk.as_str())?;
        Ok(
            ReEncryptParam {
                t: param.t,
                n: param.n,
                indices: slice_to_vec(param.indices.as_slice()),
                enc_sk,
                node_sk,
                consumer_pk,
            },
        )
    }
}

/// A re-encrypted share.
#[derive(Clone, Debug, PartialEq)]
pub struct ReEncryptResult {
    pub reenc_sk: Vec<u8>,
}

/// A re-encrypted share as text.
#[derive(Clone, Debug, PartialEq)]
pub struct ReEncryptResultS {
    pub reenc_sk: String,
}

impl ReEncryptResult {
    /// The share in hexadecimal.
    pub fn to_json(&self) -> (s: ReEncryptResultS)
        ensures
            s.reenc_sk@ == hex_text(self.reenc_sk@),
    {
        ReEncryptResultS { reenc_sk: encode(self.reenc_sk.as_slice()) }
    }
}

/// Says what the engine is to re-encrypt, or what is wrong with the policy.
pub fn reencrypt_call(param: &ReEncryptParam) -> (r: Result<ReEncryptCall, LheError>)
    ensures
        match r {
            Ok(call) => {
                &&& policy_fault(policy_of(param.t, param.n, param.indices)).is_none()
                &&& call.policy@ == policy_of(param.t, param.n, param.indices)
                &&& call.share@ == param.enc_sk@
                &&& call.node_sk@ == param.node_sk@
                &&& call.consumer_pk@ == param.consumer_pk@
            },
            Err(e) => policy_fault(policy_of(param.t, param.n, param.indices)) == Some(e),
        },
{
    let policy = derive_policy(param.t, param.n, param.indices.as_slice())?;
    ask_reencrypt(
        policy,
        param.enc_sk.as_slice(),
        param.node_sk.as_slice(),
        param.consumer_pk.as_slice(),
    )
}

/// Makes the result of a re-encryption of the engine's answer:
/// `CryptoEngine` where the engine failed.
pub fn _reencrypt(reply: Option<Vec<u8>>) -> (r: Result<ReEncryptResult, LheError>)
    ensures
        match r {
            Ok(res) => reply == Some(res.reenc_sk),
            Err(e) => e == LheError::CryptoEngine && reply.is_none(),
        },
{
    let reenc_sk = accept(reply)?;
    Ok(ReEncryptResult { reenc_sk })
}

/// What is needed to decrypt.
#[derive(Clone, Debug, PartialEq)]
pub struct DecryptParam {
    pub t: usize,
    pub n: usize,
    /// The numbers of the nodes.
    pub indices: Vec<u16>,
    /// The numbers of the nodes whose shares are supplied.
    pub chosen_indices: Vec<u16>,
    /// The re-encrypted shares, in the order of `chosen_indices`.
    pub reenc_sks: Vec<Vec<u8>>,
    /// The secret key of the consumer.
    pub consumer_sk: Vec<u8>,
    pub nonce: Vec<u8>,
    pub enc_msg: Vec<u8>,
}

/// What is needed to decrypt, as text.
#[derive(Clone, Debug, PartialEq)]
pub struct DecryptParamS {
    pub t: usize,
    pub n: usize,
    pub indices: Vec<u16>,
    pub chosen_indices: Vec<u16>,
    pub reenc_sks: Vec<String>,
    pub consumer_sk: String,
    pub nonce: String,
    pub enc_msg: String,
}

impl DecryptParam {
    /// Reads the shares, the key, the nonce and the encrypted message out of
    /// their text. `Parameter` where one of them is not hexadecimal.
    pub fn from_json(param: &DecryptParamS) -> (r: Result<DecryptParam, LheError>)
        ensures
            match r {
                Ok(p) => {
                    &&& p.t == param.t
                    &&& p.n == param.n
                    &&& p.indices@ == param.indices@
                    &&& p.chosen_indices@ == param.chosen_indices@
                    &&& p.reenc_sks@.len() == param.reenc_sks@.len()
                    &&& forall|i: int|
                        0 <= i < param.reenc_sks@.len() ==> hex_decoded(param.reenc_sks@[i]@)
                            == Some((#[trigger] p.reenc_sks@[i])@)
                    &&& hex_decoded(param.consumer_sk@) == Some(p.consumer_sk@)
                    &&& hex_decoded(param.nonce@) == Some(p.nonce@)
                    &&& hex_decoded(param.enc_msg@) == Some(p.enc_msg@)
                },
                Err(e) => e == LheError::Parameter && (!all_hex(param.reenc_sks@) || hex_decoded(
                    param.consumer_sk@,
                ).is_none() || hex_decoded(param.nonce@).is_none() || hex_decoded(
                    param.enc_msg@,
                ).is_none()),
            },
    {
        let reenc_sks = decode_all(&param.reenc_sks)?;
        let consumer_sk = decode(param.consumer_sk.as_str())?;
        let nonce = decode(param.nonce.as_str())?;
        let enc_msg = decode(param.enc_msg.as_str())?;
        Ok(
            DecryptParam {
                t: param.t,
                n: param.n,
                indices: slice_to_vec(param.indices.as_slice()),
                chosen_indices: slice_to_vec(param.chosen_indices.as_slice()),
                reenc_sks,
                consumer_sk,
                nonce,
                enc_msg,
            },
        )
    }
}

/// The plaintext.
#[derive(Clone, Debug, PartialEq)]
pub struct DecryptResult {
    pub msg: Vec<u8>,
}

/// Says what the engine is to combine and decrypt, or what is wrong with the
/// request.
pub fn decrypt_call(param: &DecryptParam) -> (r: Result<DecryptCall, LheError>)
    ensures
        match decrypt_fault(
            policy_of(param.t, param.n, param.indices),
            param.chosen_indices@,
            param.reenc_sks@.len(),
            param.nonce@.len(),
        ) {
            Some(e) => r == Err::<DecryptCall, LheError>(e),
            None => {
                &&& r.is_ok()
                &&& r.unwrap().policy@ == policy_of(param.t, param.n, param.indices)
                &&& r.unwrap().chosen_indices@ == param.chosen_indices@
                &&& runs(r.unwrap().shares@) == runs(param.reenc_sks@)
                &&& r.unwrap().consumer_sk@ == param.consumer_sk@
                &&& r.unwrap().nonce@ == param.nonce@
                &&& r.unwrap().enc_msg@ == param.enc_msg@
            },
        },
{
    let policy = derive_policy(param.t, param.n, param.indices.as_slice())?;
    ask_decrypt(
        policy,
        param.chosen_indices.as_slice(),
        &param.reenc_sks,
        param.consumer_sk.as_slice(),
        param.nonce.as_slice(),
        param.enc_msg.as_slice(),
    )
}

/// Makes the result of a decryption of the engine's answer: `CryptoEngine`
/// where the engine failed.
pub fn _decrypt(reply: Option<Vec<u8>>) -> (r: Result<DecryptResult, LheError>)
    ensures
        match r {
            Ok(res) => reply == Some(res.msg),
            Err(e) => e == LheError::CryptoEngine && reply.is_none(),
        },
{
    let msg = accept(reply)?;
    Ok(DecryptResult { msg })
}

} // verus!
