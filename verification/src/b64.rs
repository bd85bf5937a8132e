//! Unpadded URL-safe base64, through the `base64` crate.
use vstd::prelude::*;

use crate::bytesutil::all_ascii;

verus! {

/// What the URL-safe unpadded base64 encoding of `b` is. Named rather than
/// spelled out; the decoder's contract ties it back.
pub uninterp spec fn b64url_of(b: Seq<u8>) -> Seq<u8>;

/// A byte of the URL-safe base64 alphabet: `A-Z a-z 0-9 - _`.
pub open spec fn is_b64url_byte(c: u8) -> bool {
    ||| 0x41 <= c <= 0x5a
    ||| 0x61 <= c <= 0x7a
    ||| 0x30 <= c <= 0x39
    ||| c == 0x2d
    ||| c == 0x5f
}

/// Relies on base64's `URL_SAFE_NO_PAD` engine: the encoding uses only the
/// URL-safe alphabet, carries no padding, is empty exactly for empty input,
/// and depends on the input bytes alone.
#[verifier::external_body]
pub fn b64url_encode(b: &[u8]) -> (r: Vec<u8>)
    ensures
        r@ == b64url_of(b@),
        forall|i: int| 0 <= i < r@.len() ==> is_b64url_byte(#[trigger] r@[i]),
        r@.len() == 0 <==> b@.len() == 0,
{
    base64::Engine::encode(&base64::engine::general_purpose::URL_SAFE_NO_PAD, b).into_bytes()
}

/// Relies on base64's `URL_SAFE_NO_PAD` engine: decoding inverts encoding,
/// so on any encoder output it succeeds and returns the encoded bytes.
#[verifier::external_body]
pub fn b64url_decode(s: &[u8]) -> (r: Option<Vec<u8>>)
    ensures
        forall|b: Seq<u8>| s@ == b64url_of(b) ==> r is Some && r->0@ == b,
{
    base64::Engine::decode(&base64::engine::general_purpose::URL_SAFE_NO_PAD, s).ok()
}

/// The base64 alphabet is ASCII, so encodings are ASCII.
pub proof fn lemma_b64url_ascii(r: Seq<u8>)
    requires
        forall|i: int| 0 <= i < r.len() ==> is_b64url_byte(#[trigger] r[i]),
    ensures
        all_ascii(r),
{
}

} // verus!
