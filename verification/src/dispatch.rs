//! What the four operations decide around the engine.
//!
//! The engine is a sealed capability: it derives a context from a policy,
//! makes key pairs, encrypts, re-encrypts, combines shares and decrypts. This
//! library never looks inside it. Each operation is therefore cut in two. The
//! first half looks at the caller's arguments and either refuses them or says
//! what the engine is to be asked. The second half takes whatever the engine
//! answered and either refuses it or shapes the result. Neither half keeps
//! any state.

use crate::bundle::{copy_runs, runs};
use crate::error::LheError;
use crate::policy::{PolicyView, ThresholdPolicy};
use vstd::prelude::*;
use vstd::slice::slice_to_vec;

verus! {

/// The length of a nonce of the authenticated encryption.
pub const NONCE_LEN: usize = 12;

/// A key pair, as the engine made it.
#[derive(Clone, Debug, PartialEq)]
pub struct KeyPair {
    pub sk: Vec<u8>,
    pub pk: Vec<u8>,
}

/// What the engine makes of a message: one encrypted key share for each
/// node, and the message encrypted under a fresh nonce.
#[derive(Clone, Debug, PartialEq)]
pub struct Sealed {
    pub shares: Vec<Vec<u8>>,
    pub nonce: Vec<u8>,
    pub enc_msg: Vec<u8>,
}

/// A request to the engine: encrypt `msg` for the nodes of `policy`, whose
/// public keys are `node_pks`, in the order of the nodes.
#[derive(Clone, Debug, PartialEq)]
pub struct EncryptCall {
    pub policy: ThresholdPolicy,
    pub node_pks: Vec<Vec<u8>>,
    pub msg: Vec<u8>,
}

/// A request to the engine: turn the `share` of the node with the secret key
/// `node_sk` into one that the holder of `consumer_pk` can use.
#[derive(Clone, Debug, PartialEq)]
pub struct ReEncryptCall {
    pub policy: ThresholdPolicy,
    pub share: Vec<u8>,
    pub node_sk: Vec<u8>,
    pub consumer_pk: Vec<u8>,
}

/// A request to the engine: combine `shares`, the `i`-th of which comes from
/// the node `chosen_indices[i]`, and decrypt `enc_msg` with what they give.
#[derive(Clone, Debug, PartialEq)]
pub struct DecryptCall {
    pub policy: ThresholdPolicy,
    pub chosen_indices: Vec<u16>,
    pub shares: Vec<Vec<u8>>,
    pub consumer_sk: Vec<u8>,
    pub nonce: Vec<u8>,
    pub enc_msg: Vec<u8>,
}

/// What is wrong with a policy from which a context is to be derived:
/// `Policy` where `t > n`, `t == 0` or `n < 3`; otherwise `Parameter` where it
/// names more than `n` nodes.
pub open spec fn policy_fault(policy: PolicyView) -> Option<LheError> {
    if !policy.valid() {
        Some(LheError::Policy)
    } else if !policy.shaped() {
        Some(LheError::Parameter)
    } else {
        None
    }
}

/// What is wrong with a request to encrypt under `policy` for `pks` public
/// keys: what is wrong with the policy; otherwise `Parameter` where there is
/// not one public key for each of the `n` nodes.
pub open spec fn encrypt_fault(policy: PolicyView, pks: nat) -> Option<LheError> {
    if policy_fault(policy).is_some() {
        policy_fault(policy)
    } else if pks != policy.n {
        Some(LheError::Parameter)
    } else {
        None
    }
}

/// Whether every one of `chosen` is the number of a node of `policy`.
pub open spec fn all_chosen_known(policy: PolicyView, chosen: Seq<u16>) -> bool {
    forall|j: int| 0 <= j < chosen.len() ==> policy.indices.contains(chosen[j])
}

/// What is wrong with a request to decrypt under `policy` with the shares of
/// the nodes `chosen`, in this order: what is wrong with the policy;
/// `Parameter` where the shares and the chosen numbers do not pair up;
/// `CryptoEngine` where there are fewer than `t` of them, which is too few
/// for any engine to combine; `Parameter` where one of the numbers is not a
/// node of the policy, or where the nonce has not the length of a nonce.
pub open spec fn decrypt_fault(
    policy: PolicyView,
    chosen: Seq<u16>,
    shares: nat,
    nonce: nat,
) -> Option<LheError> {
    if policy_fault(policy).is_some() {
        policy_fault(policy)
    } else if chosen.len() != shares {
        Some(LheError::Parameter)
    } else if chosen.len() < policy.t {
        Some(LheError::CryptoEngine)
    } else if !all_chosen_known(policy, chosen) || nonce != NONCE_LEN {
        Some(LheError::Parameter)
    } else {
        None
    }
}

/// What is wrong with the engine's answer to a request to encrypt for `n`
/// nodes: `CryptoEngine` where it failed, where it did not make exactly `n`
/// shares, or where the nonce has not the length of a nonce.
pub open spec fn sealed_fault(n: int, reply: Option<Sealed>) -> Option<LheError> {
    match reply {
        None => Some(LheError::CryptoEngine),
        Some(sealed) => if sealed.shares@.len() != n || sealed.nonce@.len() != NONCE_LEN {
            Some(LheError::CryptoEngine)
        } else {
            None
        },
    }
}

/// The fault as a result: `Ok` where there is none.
pub open spec fn refusal(fault: Option<LheError>) -> Result<(), LheError> {
    match fault {
        None => Ok(()),
        Some(e) => Err(e),
    }
}

/// Accepts a request to encrypt, or says what is wrong with it.
pub fn check_encrypt(policy: &ThresholdPolicy, pks: usize) -> (r: Result<(), LheError>)
    ensures
        r == refusal(encrypt_fault(policy@, pks as nat)),
{
    policy.check()?;
    if pks != policy.n {
        return Err(LheError::Parameter);
    }
    Ok(())
}

/// Accepts a request to re-encrypt one share, or says what is wrong with its
/// policy.
pub fn check_reencrypt(policy: &ThresholdPolicy) -> (r: Result<(), LheError>)
    ensures
        r == refusal(policy_fault(policy@)),
{
    policy.check()?;
    Ok(())
}

/// Accepts a request to decrypt, or says what is wrong with it.
pub fn check_decrypt(policy: &ThresholdPolicy, chosen: &[u16], shares: usize, nonce: usize) -> (r:
    Result<(), LheError>)
    ensures
        r == refusal(decrypt_fault(policy@, chosen@, shares as nat, nonce as nat)),
{
    policy.check()?;
    if chosen.len() != shares {
        return Err(LheError::Parameter);
    }
    if chosen.len() < policy.t {
        return Err(LheError::CryptoEngine);
    }
    if nonce != NONCE_LEN || !policy.has_all(chosen) {
        return Err(LheError::Parameter);
    }
    Ok(())
}

/// Takes the engine's answer to a request to encrypt for `n` nodes:
/// `CryptoEngine` where the engine failed or its answer is not one share for
/// each node with a nonce of the right length. An answer that is accepted
/// holds exactly `n` shares.
pub fn accept_sealed(n: usize, reply: Option<Sealed>) -> (r: Result<Sealed, LheError>)
    ensures
        match r {
            Ok(sealed) => sealed_fault(n as int, reply).is_none() && reply == Some(sealed)
                && sealed.shares@.len() == n,
            Err(e) => sealed_fault(n as int, reply) == Some(e),
        },
{
    match reply {
        None => Err(LheError::CryptoEngine),
        Some(sealed) => if sealed.shares.len() != n || sealed.nonce.len() != NONCE_LEN {
            Err(LheError::CryptoEngine)
        } else {
            Ok(sealed)
        },
    }
}

/// Takes an answer of the engine: `CryptoEngine` where the engine failed.
pub fn accept<T>(reply: Option<T>) -> (r: Result<T, LheError>)
    ensures
        match r {
            Ok(value) => reply == Some(value),
            Err(e) => e == LheError::CryptoEngine && reply.is_none(),
        },
{
    match reply {
        None => Err(LheError::CryptoEngine),
        Some(value) => Ok(value),
    }
}

/// Derives the policy from which the engine is to derive its context, or
/// says what is wrong with it.
pub fn derive_policy(t: usize, n: usize, indices: &[u16]) -> (r: Result<ThresholdPolicy, LheError>)
    ensures
        match r {
            Ok(policy) => {
                &&& policy@ == (PolicyView { t: t as int, n: n as int, indices: indices@ })
                &&& policy_fault(policy@).is_none()
            },
            Err(e) => policy_fault(PolicyView { t: t as int, n: n as int, indices: indices@ })
                == Some(e),
        },
{
    let policy = ThresholdPolicy { t, n, indices: slice_to_vec(indices) };
    policy.check()?;
    Ok(policy)
}

/// Says what the engine is to encrypt, or what is wrong with the request.
pub fn ask_encrypt(policy: ThresholdPolicy, node_pks: &Vec<Vec<u8>>, msg: &[u8]) -> (r: Result<
    EncryptCall,
    LheError,
>)
    ensures
        match r {
            Ok(call) => {
                &&& encrypt_fault(policy@, node_pks@.len()).is_none()
                &&& call.policy@ == policy@
                &&& runs(call.node_pks@) == runs(node_pks@)
                &&& call.msg@ == msg@
            },
            Err(e) => encrypt_fault(policy@, node_pks@.len()) == Some(e),
        },
{
    check_encrypt(&policy, node_pks.len())?;
    Ok(EncryptCall { policy, node_pks: copy_runs(node_pks), msg: slice_to_vec(msg) })
}

/// Says what the engine is to re-encrypt, or what is wrong with the policy.
pub fn ask_reencrypt(
    policy: ThresholdPolicy,
    share: &[u8],
    node_sk: &[u8],
    consumer_pk: &[u8],
) -> (r: Result<ReEncryptCall, LheError>)
    ensures
        match r {
            Ok(call) => {
                &&& policy_fault(policy@).is_none()
                &&& call.policy@ == policy@
                &&& call.share@ == share@
                &&& call.node_sk@ == node_sk@
                &&& call.consumer_pk@ == consumer_pk@
            },
            Err(e) => policy_fault(policy@) == Some(e),
        },
{
    check_reencrypt(&policy)?;
    Ok(
        ReEncryptCall {
            policy,
            share: slice_to_vec(share),
            node_sk: slice_to_vec(node_sk),
            consumer_pk: slice_to_vec(consumer_pk),
        },
    )
}

/// Says what the engine is to combine and decrypt, or what is wrong with the
/// request.
pub fn ask_decrypt(
    policy: ThresholdPolicy,
    chosen: &[u16],
    shares: &Vec<Vec<u8>>,
    consumer_sk: &[u8],
    nonce: &[u8],
    enc_msg: &[u8],
) -> (r: Result<DecryptCall, LheError>)
    ensures
        match r {
            Ok(call) => {
                &&& decrypt_fault(policy@, chosen@, shares@.len(), nonce@.len()).is_none()
                &&& call.policy@ == policy@
                &&& call.chosen_indices@ == chosen@
                &&& runs(call.shares@) == runs(shares@)
                &&& call.consumer_sk@ == consumer_sk@
                &&& call.nonce@ == nonce@
                &&& call.enc_msg@ == enc_msg@
            },
            Err(e) => decrypt_fault(policy@, chosen@, shares@.len(), nonce@.len()) == Some(e),
        },
{
    check_decrypt(&policy, chosen, shares.len(), nonce.len())?;
    Ok(
        DecryptCall {
            policy,
            chosen_indices: slice_to_vec(chosen),
            shares: copy_runs(shares),
            consumer_sk: slice_to_vec(consumer_sk),
            nonce: slice_to_vec(nonce),
            enc_msg: slice_to_vec(enc_msg),
        },
    )
}

/// Encryption under a valid policy, with one public key for each node, is
/// asked of the engine, and what is accepted of the engine's answer holds
/// exactly `n` shares.
pub proof fn lemma_encrypt_yields_n_shares(policy: PolicyView, pks: nat, reply: Option<Sealed>)
    requires
        policy.valid(),
        policy.shaped(),
        pks == policy.n,
    ensures
        encrypt_fault(policy, pks).is_none(),
        sealed_fault(policy.n, reply).is_none() ==> reply.unwrap().shares@.len() == policy.n,
{
}

/// Decryption is asked of the engine exactly where at least `t` shares are
/// supplied and every chosen number is a node of the policy, given a valid
/// policy, as many shares as chosen numbers, and a nonce of the right length.
pub proof fn lemma_decrypt_admission(
    policy: PolicyView,
    chosen: Seq<u16>,
    shares: nat,
    nonce: nat,
)
    requires
        policy.valid(),
        policy.shaped(),
        chosen.len() == shares,
        nonce == NONCE_LEN,
    ensures
        decrypt_fault(policy, chosen, shares, nonce).is_none() <==> shares >= policy.t
            && all_chosen_known(policy, chosen),
{
}

/// Fewer than `t` shares, each paired with a chosen number, are refused as
/// `CryptoEngine` under a valid policy, whatever the numbers and the nonce
/// are.
pub proof fn lemma_too_few_shares(policy: PolicyView, chosen: Seq<u16>, shares: nat, nonce: nat)
    requires
        policy.valid(),
        policy.shaped(),
        chosen.len() == shares,
        shares < policy.t,
    ensures
        decrypt_fault(policy, chosen, shares, nonce) == Some(LheError::CryptoEngine),
{
}

} // verus!
