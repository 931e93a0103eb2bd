use vstd::prelude::*;
use sha2::{Digest, Sha256};
use crate::encoding::is_lower_hex;

verus! {

/// Length of a digest in characters.
pub const DIGEST_LEN: usize = 64;

/// The SHA-256 digest of the UTF-8 encoding of `text`, written as 64
/// lower-case base-16 digits.
pub uninterp spec fn sha256_hex(text: Seq<char>) -> Seq<char>;

/// Relies on `sha2::Sha256::digest` for the digest of the UTF-8 bytes of
/// `text`, and on generic-array's `LowerHex` for its rendering: two
/// lower-case digits for each of the 32 bytes.
#[verifier::external_body]
pub(crate) fn sha256_hex_of(text: &str) -> (r: String)
    ensures
        r@ == sha256_hex(text@),
        r@.len() == DIGEST_LEN,
        is_lower_hex(r@),
{
    format!("{:x}", Sha256::digest(text.as_bytes()))
}

} // verus!
