//! The cryptographic primitives and encodings that the library takes from
//! other crates.

use vstd::prelude::*;

use argon2::{Algorithm, Argon2, Params, Version};
use base64::engine::general_purpose::URL_SAFE_NO_PAD;
use base64::Engine;
use hmac::{Hmac, Mac};
use sha2::Sha256;

verus! {

/// HMAC-SHA256 of a message under a key.
pub uninterp spec fn hmac_sha256_of(key: Seq<u8>, message: Seq<u8>) -> Seq<u8>;

/// Calls `Hmac::<Sha256>` of the hmac and sha2 crates on one message. It takes a
/// key of any length and gives 32 bytes.
#[verifier::external_body]
pub(crate) fn hmac_sha256(key: &[u8], message: &[u8]) -> (r: Vec<u8>)
    ensures
        r@ == hmac_sha256_of(key@, message@),
        r@.len() == 32,
{
    let mut mac = Hmac::<Sha256>::new_from_slice(key).expect("HMAC takes a key of any length");
    mac.update(message);
    mac.finalize().into_bytes().to_vec()
}

/// Calls `Mac::verify_slice` of the hmac crate, which compares a tag with the
/// one of the message in constant time; a tag of another length never matches.
#[verifier::external_body]
pub(crate) fn hmac_sha256_matches(key: &[u8], message: &[u8], tag: &[u8]) -> (r: bool)
    ensures
        r == (tag@ == hmac_sha256_of(key@, message@)),
{
    let mut mac = Hmac::<Sha256>::new_from_slice(key).expect("HMAC takes a key of any length");
    mac.update(message);
    mac.verify_slice(tag).is_ok()
}

/// URL-safe base64 without padding.
pub uninterp spec fn base64url_of(bytes: Seq<u8>) -> Seq<char>;

/// The bytes that a text stands for in URL-safe base64 without padding; `None`
/// where it is no such text.
pub uninterp spec fn base64url_bytes(text: Seq<char>) -> Option<Seq<u8>>;

/// Calls `URL_SAFE_NO_PAD.encode` of the base64 crate. What it writes, `decode`
/// reads back.
#[verifier::external_body]
pub(crate) fn base64url_encode(bytes: &[u8]) -> (r: String)
    ensures
        r@ == base64url_of(bytes@),
        base64url_bytes(r@) == Some(bytes@),
{
    URL_SAFE_NO_PAD.encode(bytes)
}

/// Calls `URL_SAFE_NO_PAD.decode` of the base64 crate. It accepts canonical
/// texts only, no padding and no stray bits at the end, so what it reads is what
/// `encode` would write.
#[verifier::external_body]
pub(crate) fn base64url_decode(text: &str) -> (r: Option<Vec<u8>>)
    ensures
        match r {
            Some(bytes) => base64url_bytes(text@) == Some(bytes@) && text@ == base64url_of(bytes@),
            None => base64url_bytes(text@) is None,
        },
{
    URL_SAFE_NO_PAD.decode(text).ok()
}

/// Argon2id (version 1.3) of `input` under `salt`, `len` bytes long.
pub uninterp spec fn argon2id_of(
    m_cost_kib: u32,
    t_cost: u32,
    p_cost: u32,
    salt: Seq<u8>,
    input: Seq<u8>,
    len: nat,
) -> Seq<u8>;

/// Costs within the ranges of Argon2.
pub open spec fn argon2_costs_valid(m_cost_kib: u32, t_cost: u32, p_cost: u32) -> bool {
    &&& 1 <= p_cost <= 0xff_ffff
    &&& m_cost_kib >= 8 * p_cost
    &&& t_cost >= 1
}

/// Lengths of salt, input and output that Argon2 allows.
pub open spec fn argon2_lengths_valid(salt: nat, input: nat, out: nat) -> bool {
    8 <= salt <= 0xffff_ffff && input <= 0xffff_ffff && 4 <= out <= 0xffff_ffff
}

/// Calls `Argon2::hash_password_into` of the argon2 crate. With costs in range it
/// fails only on lengths that the algorithm does not allow.
#[verifier::external_body]
pub(crate) fn argon2id(
    m_cost_kib: u32,
    t_cost: u32,
    p_cost: u32,
    salt: &[u8],
    input: &[u8],
    len: usize,
) -> (r: Option<Vec<u8>>)
    requires
        argon2_costs_valid(m_cost_kib, t_cost, p_cost),
    ensures
        match r {
            Some(out) => argon2_lengths_valid(salt@.len(), input@.len(), len as nat) && out@.len()
                == len && out@ == argon2id_of(
                m_cost_kib,
                t_cost,
                p_cost,
                salt@,
                input@,
                len as nat,
            ),
            None => !argon2_lengths_valid(salt@.len(), input@.len(), len as nat),
        },
{
    let params = Params::new(m_cost_kib, t_cost, p_cost, None).ok()?;
    let mut out = vec![0u8; len];
    let argon = Argon2::new(Algorithm::Argon2id, Version::V0x13, params);
    argon.hash_password_into(input, salt, &mut out).ok()?;
    Some(out)
}

} // verus!
