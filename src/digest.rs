//! Content digests of artifacts: lowercase hexadecimal SHA-1.
use vstd::prelude::*;

use crate::error::PipelineError;

verus! {

/// The SHA-1 digest of `data`.
pub uninterp spec fn sha1_of(data: Seq<u8>) -> Seq<u8>;

/// The lowercase hexadecimal digit of a value below 16.
pub open spec fn hex_digit(v: u8) -> char {
    if v < 10 {
        ((v + 48) as u8) as char
    } else {
        ((v + 87) as u8) as char
    }
}

/// Two lowercase hexadecimal digits per byte, high nibble first.
pub open spec fn hex_lower(data: Seq<u8>) -> Seq<char>
    decreases data.len(),
{
    if data.len() == 0 {
        Seq::empty()
    } else {
        let b = data.last();
        hex_lower(data.drop_last()).push(hex_digit(b / 16)).push(hex_digit(b % 16))
    }
}

/// The digest that the library records for content `data`.
pub open spec fn digest_of(data: Seq<u8>) -> Seq<char> {
    hex_lower(sha1_of(data))
}

/// Relies on sha1::Sha1 (RustCrypto `Digest::digest`): the 20-byte SHA-1 of `data`.
#[verifier::external_body]
fn sha1_digest(data: &[u8]) -> (r: Vec<u8>)
    ensures
        r@ == sha1_of(data@),
        r@.len() == 20,
{
    <sha1::Sha1 as sha1::Digest>::digest(data).to_vec()
}

/// Relies on hex::encode: two lowercase hexadecimal digits per byte, high nibble first.
#[verifier::external_body]
fn hex_encode(data: &[u8]) -> (r: String)
    ensures
        r@ == hex_lower(data@),
{
    hex::encode(data)
}

pub proof fn lemma_hex_lower_len(data: Seq<u8>)
    ensures
        hex_lower(data).len() == 2 * data.len(),
    decreases data.len(),
{
    if data.len() > 0 {
        lemma_hex_lower_len(data.drop_last());
    }
}

/// The lowercase hexadecimal SHA-1 of `data`: 40 characters.
pub fn digest(data: &Vec<u8>) -> (r: String)
    ensures
        r@ == digest_of(data@),
        r@.len() == 40,
{
    let h = sha1_digest(data.as_slice());
    proof {
        lemma_hex_lower_len(h@);
    }
    hex_encode(h.as_slice())
}

/// Checks `data` against a recorded digest; a mismatch is a hard failure.
pub fn verify_digest(data: &Vec<u8>, expected: &String) -> (r: Result<(), PipelineError>)
    ensures
        r is Ok <==> digest_of(data@) == expected@,
        r matches Err(e) ==> e == PipelineError::IntegrityMismatch,
{
    let d = digest(data);
    if d == *expected {
        Ok(())
    } else {
        Err(PipelineError::IntegrityMismatch)
    }
}

/// Hash stability: the digest depends on the bytes alone, so two files with identical
/// contents have the same digest whatever their names, paths or metadata.
pub proof fn lemma_digest_depends_on_bytes(a: Seq<u8>, b: Seq<u8>)
    requires
        a == b,
    ensures
        digest_of(a) == digest_of(b),
{
}

} // verus!
