//! Fingerprint computation: the SHA-224 digest of a nickname's bytes,
//! rendered as a 56-character lowercase hex string.

use vstd::prelude::*;

use sha2::Digest;

use crate::hex::all_hex_digits;
use crate::hex::bytes_to_hex;
use crate::hex::hex_of;
use crate::hex::lemma_hex_of_digits;

verus! {

/// The SHA-224 digest of a string's bytes. The digest itself is left to the
/// hash crate; contracts speak of it only through this name.
pub uninterp spec fn sha224_of(s: Seq<char>) -> Seq<u8>;

/// Relies on sha2::Sha224 through digest::Digest::digest: the SHA-224 digest
/// is a pure function of the input bytes alone, and is 28 bytes (224 bits)
/// long.
#[verifier::external_body]
fn sha224_digest(s: &str) -> (r: Vec<u8>)
    ensures
        r@ == sha224_of(s@),
        r@.len() == 28,
{
    sha2::Sha224::digest(s.as_bytes()).to_vec()
}

/// A nickname's fingerprint: the lowercase hex rendering of its SHA-224
/// digest.
pub open spec fn fingerprint_of(nickname: Seq<char>) -> Seq<char> {
    hex_of(sha224_of(nickname))
}

/// Hash a nickname into its fingerprint. Identical nicknames always yield
/// identical fingerprints; the result is 56 lowercase hex characters.
pub fn compute_fingerprint(nickname: &str) -> (r: String)
    ensures
        r@ == fingerprint_of(nickname@),
        r@.len() == 56,
        all_hex_digits(r@),
{
    let digest = sha224_digest(nickname);
    proof {
        lemma_hex_of_digits(digest@);
    }
    bytes_to_hex(digest.as_slice())
}

/// The fingerprint is deterministic: it depends on the nickname alone, so
/// equal nicknames have equal fingerprints.
pub proof fn lemma_fingerprint_deterministic(n1: Seq<char>, n2: Seq<char>)
    requires
        n1 == n2,
    ensures
        fingerprint_of(n1) == fingerprint_of(n2),
{
}

} // verus!
