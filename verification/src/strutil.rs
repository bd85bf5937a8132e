//! Conversions between byte strings and `String`.
//!
//! The library computes over bytes; these functions cross to `String` at its
//! public boundary. The byte image of a string is its UTF-8 encoding,
//! `encode_utf8` from vstd.
use vstd::prelude::*;

use crate::bytesutil::all_ascii;
use vstd::utf8::encode_utf8;

verus! {

/// The UTF-8 bytes of a string.
pub fn string_to_bytes(s: &str) -> (r: Vec<u8>)
    ensures
        r@ == encode_utf8(s@),
{
    s.as_bytes_vec()
}

/// Relies on `String::from_utf8`: it returns `Ok` exactly on valid UTF-8
/// input, and the returned string's bytes are the input bytes. ASCII bytes
/// are always valid UTF-8.
#[verifier::external_body]
pub fn bytes_to_string(v: Vec<u8>) -> (r: Option<String>)
    ensures
        r matches Some(s) ==> encode_utf8(s@) == v@,
        all_ascii(v@) ==> r is Some,
{
    String::from_utf8(v).ok()
}

/// Converts bytes known to be ASCII.
pub fn ascii_to_string(v: Vec<u8>) -> (r: String)
    requires
        all_ascii(v@),
    ensures
        encode_utf8(r@) == v@,
{
    match bytes_to_string(v) {
        Some(s) => s,
        None => {
            proof {
                assert(false);
            }
            String::new()
        },
    }
}

} // verus!
