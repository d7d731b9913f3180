//! Signature finalization.
//!
//! The cryptographic arithmetic of the threshold scheme is out of scope;
//! what this layer owes the caller is that a produced signature is checked
//! against the group key before it is handed back, and that a signature
//! failing that check is reported as `InvalidSignature`, never as success.

use vstd::prelude::*;
use crate::SwarmError;

verus! {

/// Whether `sig` is a valid signature over `msg` under the verifying key
/// encoded by `key`.
pub uninterp spec fn sig_valid(key: Seq<u8>, msg: Seq<u8>, sig: Seq<u8>) -> bool;

/// Relies on frost-ed25519's `VerifyingKey::verify`, together with
/// `VerifyingKey::deserialize` and `Signature::deserialize`: whether the
/// serialized signature verifies over the message under the serialized key
/// is a function of the three byte strings alone.
#[verifier::external_body]
pub fn verify_signature(key: &Vec<u8>, msg: &Vec<u8>, sig: &Vec<u8>) -> (r: bool)
    ensures
        r == sig_valid(key@, msg@, sig@),
{
    let vk = match frost_ed25519::VerifyingKey::deserialize(key) {
        Ok(vk) => vk,
        Err(_) => return false,
    };
    let s = match frost_ed25519::Signature::deserialize(sig) {
        Ok(s) => s,
        Err(_) => return false,
    };
    vk.verify(msg, &s).is_ok()
}

/// Accepts or rejects a produced signature given its verification outcome:
/// a signature that failed local verification is never handed back.
pub fn settle_signature(valid: bool, sig: Vec<u8>) -> (r: Result<Vec<u8>, SwarmError>)
    ensures
        valid ==> (r matches Ok(s) && s@ == sig@),
        !valid ==> r == Err::<Vec<u8>, SwarmError>(SwarmError::InvalidSignature),
{
    if valid {
        Ok(sig)
    } else {
        Err(SwarmError::InvalidSignature)
    }
}

/// Verifies a produced signature against the group key and message, and
/// returns it only if it verifies; otherwise reports `InvalidSignature`.
pub fn finish_signature(key: &Vec<u8>, msg: &Vec<u8>, sig: Vec<u8>) -> (r: Result<
    Vec<u8>,
    SwarmError,
>)
    ensures
        sig_valid(key@, msg@, sig@) ==> (r matches Ok(s) && s@ == sig@),
        !sig_valid(key@, msg@, sig@) ==> r == Err::<Vec<u8>, SwarmError>(
            SwarmError::InvalidSignature,
        ),
{
    let valid = verify_signature(key, msg, &sig);
    settle_signature(valid, sig)
}

} // verus!
