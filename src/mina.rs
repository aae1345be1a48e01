use base64::prelude::{Engine, BASE64_STANDARD, BASE64_URL_SAFE};
use vstd::prelude::*;
use vstd::string::StringExecFns;

verus! {

/// Length of a state hash in a protocol state public input.
pub const STATE_HASH_SIZE: usize = 32;

/// Length of an encoded protocol state in a protocol state public input.
pub const PROTOCOL_STATE_SIZE: usize = 2060;

/// Whether a byte string is valid UTF-8.
pub uninterp spec fn utf8_valid(bytes: Seq<u8>) -> bool;

/// Whether a byte string is base64 of the URL-safe alphabet with canonical
/// padding and no stray trailing bits.
pub uninterp spec fn base64_url_safe_valid(bytes: Seq<u8>) -> bool;

/// Whether a byte string is base64 of the standard alphabet with canonical
/// padding and no stray trailing bits.
pub uninterp spec fn base64_standard_valid(bytes: Seq<u8>) -> bool;

/// Relies on `std::str::from_utf8`: it succeeds exactly on valid UTF-8.
#[verifier::external_body]
fn check_utf8(bytes: &[u8]) -> (r: Result<(), String>)
    ensures
        r.is_ok() == utf8_valid(bytes@),
{
    match std::str::from_utf8(bytes) {
        Ok(_) => Ok(()),
        Err(e) => Err(e.to_string()),
    }
}

/// Relies on `base64::Engine::decode` with `BASE64_URL_SAFE`: it succeeds
/// exactly on canonically padded URL-safe base64.
#[verifier::external_body]
fn check_base64_url_safe(bytes: &[u8]) -> (r: Result<(), String>)
    ensures
        r.is_ok() == base64_url_safe_valid(bytes@),
{
    match BASE64_URL_SAFE.decode(bytes) {
        Ok(_) => Ok(()),
        Err(e) => Err(e.to_string()),
    }
}

/// Relies on `base64::Engine::decode` with `BASE64_STANDARD`: it succeeds
/// exactly on canonically padded standard base64.
#[verifier::external_body]
fn check_base64_standard(bytes: &[u8]) -> (r: Result<(), String>)
    ensures
        r.is_ok() == base64_standard_valid(bytes@),
{
    match BASE64_STANDARD.decode(bytes) {
        Ok(_) => Ok(()),
        Err(e) => Err(e.to_string()),
    }
}

/// A protocol state proof is well formed: URL-safe base64 text.
pub open spec fn protocol_state_proof_ok(proof: Seq<u8>) -> bool {
    utf8_valid(proof) && base64_url_safe_valid(proof)
}

/// The candidate state of a protocol state public input.
pub open spec fn candidate_state(p: Seq<u8>) -> Seq<u8> {
    p.subrange(STATE_HASH_SIZE as int, (STATE_HASH_SIZE + PROTOCOL_STATE_SIZE) as int)
}

/// The tip state of a protocol state public input.
pub open spec fn tip_state(p: Seq<u8>) -> Seq<u8> {
    p.subrange(
        (STATE_HASH_SIZE + PROTOCOL_STATE_SIZE + STATE_HASH_SIZE) as int,
        ((STATE_HASH_SIZE + PROTOCOL_STATE_SIZE) * 2) as int,
    )
}

/// A protocol state public input is well formed: long enough for two hashed
/// states, each of them standard base64 text.
pub open spec fn protocol_state_pub_ok(p: Seq<u8>) -> bool {
    &&& p.len() >= (STATE_HASH_SIZE + PROTOCOL_STATE_SIZE) * 2
    &&& utf8_valid(candidate_state(p)) && base64_standard_valid(candidate_state(p))
    &&& utf8_valid(tip_state(p)) && base64_standard_valid(tip_state(p))
}

/// Checks that a protocol state proof is URL-safe base64 text.
pub fn check_protocol_state_proof(protocol_state_proof_bytes: &[u8]) -> (r: Result<(), String>)
    ensures
        r.is_ok() == protocol_state_proof_ok(protocol_state_proof_bytes@),
{
    check_utf8(protocol_state_proof_bytes)?;
    check_base64_url_safe(protocol_state_proof_bytes)?;
    Ok(())
}

/// Checks that a protocol state public input holds two hashed states, each
/// standard base64 text; a too short input is rejected.
pub fn check_protocol_state_pub(protocol_state_pub: &[u8]) -> (r: Result<(), String>)
    ensures
        r.is_ok() == protocol_state_pub_ok(protocol_state_pub@),
{
    let end = (STATE_HASH_SIZE + PROTOCOL_STATE_SIZE) * 2;
    if protocol_state_pub.len() < end {
        return Err(String::from_str("protocol state public input is too short"));
    }
    let candidate = &protocol_state_pub[STATE_HASH_SIZE..STATE_HASH_SIZE + PROTOCOL_STATE_SIZE];
    assert(candidate@ == candidate_state(protocol_state_pub@));
    check_utf8(candidate)?;
    check_base64_standard(candidate)?;
    let tip = &protocol_state_pub[STATE_HASH_SIZE + PROTOCOL_STATE_SIZE + STATE_HASH_SIZE..end];
    assert(tip@ == tip_state(protocol_state_pub@));
    check_utf8(tip)?;
    check_base64_standard(tip)?;
    Ok(())
}

/// Whether a protocol state proof and its public input are well formed.
pub fn verify_protocol_state_proof_integrity(proof: &[u8], public_input: &[u8]) -> (r: bool)
    ensures
        r == (protocol_state_proof_ok(proof@) && protocol_state_pub_ok(public_input@)),
{
    if check_protocol_state_proof(proof).is_err() {
        return false;
    }
    check_protocol_state_pub(public_input).is_ok()
}

} // verus!
