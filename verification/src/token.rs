//! The bearer token and the exec-credential document.
//!
//! The token is the literal prefix `k8s-aws-v1.` followed by the unpadded
//! URL-safe base64 encoding of the signed URL. The document is the JSON
//! object the cluster client consumes; it is emitted here byte by byte,
//! with a fixed field order and an escaper for the string fields, and
//! parsed back strictly for the cache gate.
use vstd::prelude::*;

use crate::b64::b64url_decode;
use crate::b64::b64url_encode;
use crate::b64::b64url_of;
use crate::b64::is_b64url_byte;
use crate::bytesutil::all_ascii;
use crate::bytesutil::bytes_eq;
use crate::bytesutil::push_bytes;
use crate::bytesutil::starts_with;
use crate::error::GetEKSTokenError;
use crate::identity::advertised_expiration;
use crate::identity::advertised_expiration_e;
use crate::identity::Identity;
use crate::query::hex_digit;
use crate::rfc3339::format_rfc3339;
use crate::rfc3339::rfc3339_bytes;
use crate::rfc3339::MAX_TIMESTAMP;
use crate::sigv4::SignedRequest;
use crate::strutil::ascii_to_string;
use crate::strutil::bytes_to_string;
use crate::strutil::string_to_bytes;
use vstd::slice::slice_subrange;
use vstd::slice::slice_to_vec;
use vstd::utf8::encode_utf8;

verus! {

/// The status half of the exec-credential document.
#[derive(Debug, Clone)]
pub struct K8sTokenStatus {
    pub expiration_timestamp: String,
    pub token: String,
}

/// The exec-credential document: fixed `kind` and `apiVersion`, an always
/// empty `spec` object, and the status carrying expiration and token.
#[derive(Debug, Clone)]
pub struct K8sToken {
    pub kind: String,
    pub api_version: String,
    pub status: K8sTokenStatus,
}

/// The bytes of `'k8s-aws-v1.'`.
pub open spec fn bearer_prefix_bytes() -> Seq<u8> {
    seq![
        0x6bu8, 0x38, 0x73, 0x2d, 0x61, 0x77, 0x73, 0x2d, 0x76, 0x31, 0x2e,
    ]
}

/// The bytes of `'ExecCredential'`.
pub open spec fn kind_bytes() -> Seq<u8> {
    seq![
        0x45u8, 0x78, 0x65, 0x63, 0x43, 0x72, 0x65, 0x64, 0x65, 0x6e, 0x74, 0x69,
        0x61, 0x6c,
    ]
}

/// The bytes of `'client.authentication.k8s.io/v1beta1'`.
pub open spec fn api_version_bytes() -> Seq<u8> {
    seq![
        0x63u8, 0x6c, 0x69, 0x65, 0x6e, 0x74, 0x2e, 0x61, 0x75, 0x74, 0x68, 0x65,
        0x6e, 0x74, 0x69, 0x63, 0x61, 0x74, 0x69, 0x6f, 0x6e, 0x2e, 0x6b, 0x38,
        0x73, 0x2e, 0x69, 0x6f, 0x2f, 0x76, 0x31, 0x62, 0x65, 0x74, 0x61, 0x31,
    ]
}

/// The bytes of `'{"kind":"'`.
pub open spec fn doc_part_kind() -> Seq<u8> {
    seq![
        0x7bu8, 0x22, 0x6b, 0x69, 0x6e, 0x64, 0x22, 0x3a, 0x22,
    ]
}

/// The bytes of `'","apiVersion":"'`.
pub open spec fn doc_part_api() -> Seq<u8> {
    seq![
        0x22u8, 0x2c, 0x22, 0x61, 0x70, 0x69, 0x56, 0x65, 0x72, 0x73, 0x69, 0x6f,
        0x6e, 0x22, 0x3a, 0x22,
    ]
}

/// The bytes of `'","spec":{},"status":{"expirationTimestamp":"'`.
pub open spec fn doc_part_expiration() -> Seq<u8> {
    seq![
        0x22u8, 0x2c, 0x22, 0x73, 0x70, 0x65, 0x63, 0x22, 0x3a, 0x7b, 0x7d, 0x2c,
        0x22, 0x73, 0x74, 0x61, 0x74, 0x75, 0x73, 0x22, 0x3a, 0x7b, 0x22, 0x65,
        0x78, 0x70, 0x69, 0x72, 0x61, 0x74, 0x69, 0x6f, 0x6e, 0x54, 0x69, 0x6d,
        0x65, 0x73, 0x74, 0x61, 0x6d, 0x70, 0x22, 0x3a, 0x22,
    ]
}

/// The bytes of `'","token":"'`.
pub open spec fn doc_part_token() -> Seq<u8> {
    seq![
        0x22u8, 0x2c, 0x22, 0x74, 0x6f, 0x6b, 0x65, 0x6e, 0x22, 0x3a, 0x22,
    ]
}

/// The bytes of `'"}}'`.
pub open spec fn doc_part_end() -> Seq<u8> {
    seq![
        0x22u8, 0x7d, 0x7d,
    ]
}


/// The bearer token for a signed URL: prefix plus unpadded URL-safe base64.
pub open spec fn bearer_bytes(url: Seq<u8>) -> Seq<u8> {
    bearer_prefix_bytes() + b64url_of(url)
}

/// How one byte appears inside a JSON string: quote and backslash escaped,
/// controls as `\u00XX`, everything else as itself.
pub open spec fn json_escape_byte(b: u8) -> Seq<u8> {
    if b == 0x22 {
        seq![0x5cu8, 0x22u8]
    } else if b == 0x5c {
        seq![0x5cu8, 0x5cu8]
    } else if b < 0x20 {
        seq![0x5cu8, 0x75u8, 0x30u8, 0x30u8, hex_digit(b as int / 16), hex_digit(b as int)]
    } else {
        seq![b]
    }
}

/// A JSON string body for arbitrary content.
pub open spec fn json_escape(s: Seq<u8>) -> Seq<u8>
    decreases s.len(),
{
    if s.len() == 0 {
        Seq::empty()
    } else {
        json_escape_byte(s[0]) + json_escape(s.drop_first())
    }
}

/// Content that the escaper passes through unchanged: no quote, no
/// backslash, no control bytes.
pub open spec fn json_plain(s: Seq<u8>) -> bool {
    forall|i: int| 0 <= i < s.len() ==> s[i] != 0x22 && s[i] != 0x5c && s[i] >= 0x20
}

/// The serialized exec-credential document for the four string fields.
pub open spec fn json_doc(kind: Seq<u8>, api: Seq<u8>, exp: Seq<u8>, tok: Seq<u8>) -> Seq<u8> {
    doc_part_kind() + json_escape(kind) + doc_part_api() + json_escape(api)
        + doc_part_expiration() + json_escape(exp) + doc_part_token() + json_escape(tok)
        + doc_part_end()
}

/// The document as minted: fixed kind and apiVersion, fields that need no
/// escaping.
pub open spec fn canonical_doc(exp: Seq<u8>, tok: Seq<u8>) -> Seq<u8> {
    doc_part_kind() + kind_bytes() + doc_part_api() + api_version_bytes() + doc_part_expiration()
        + exp + doc_part_token() + tok + doc_part_end()
}

/// On plain content the escaper is the identity.
pub proof fn lemma_json_escape_plain(s: Seq<u8>)
    requires
        json_plain(s),
    ensures
        json_escape(s) == s,
    decreases s.len(),
{
    if s.len() > 0 {
        lemma_json_escape_plain(s.drop_first());
        assert(json_escape(s) =~= s);
    }
}

/// Escaping ASCII content yields ASCII.
pub proof fn lemma_json_escape_ascii(s: Seq<u8>)
    requires
        all_ascii(s),
    ensures
        all_ascii(json_escape(s)),
    decreases s.len(),
{
    if s.len() > 0 {
        lemma_json_escape_ascii(s.drop_first());
        assert(all_ascii(json_escape_byte(s[0])));
        assert(all_ascii(json_escape(s)));
    }
}

/// With plain kind and apiVersion and plain fields, the emitted document is
/// the canonical one.
pub proof fn lemma_canonical_doc(exp: Seq<u8>, tok: Seq<u8>)
    requires
        json_plain(exp),
        json_plain(tok),
    ensures
        json_doc(kind_bytes(), api_version_bytes(), exp, tok) == canonical_doc(exp, tok),
{
    assert(json_plain(kind_bytes()));
    assert(json_plain(api_version_bytes()));
    lemma_json_escape_plain(kind_bytes());
    lemma_json_escape_plain(api_version_bytes());
    lemma_json_escape_plain(exp);
    lemma_json_escape_plain(tok);
}

/// A document over ASCII fields is ASCII.
pub proof fn lemma_json_doc_ascii(kind: Seq<u8>, api: Seq<u8>, exp: Seq<u8>, tok: Seq<u8>)
    requires
        all_ascii(kind),
        all_ascii(api),
        all_ascii(exp),
        all_ascii(tok),
    ensures
        all_ascii(json_doc(kind, api, exp, tok)),
{
    lemma_json_escape_ascii(kind);
    lemma_json_escape_ascii(api);
    lemma_json_escape_ascii(exp);
    lemma_json_escape_ascii(tok);
    assert(all_ascii(doc_part_kind()));
    assert(all_ascii(doc_part_api()));
    assert(all_ascii(doc_part_expiration()));
    assert(all_ascii(doc_part_token()));
    assert(all_ascii(doc_part_end()));
    crate::bytesutil::lemma_all_ascii_concat(doc_part_kind(), json_escape(kind));
    crate::bytesutil::lemma_all_ascii_concat(doc_part_kind() + json_escape(kind), doc_part_api());
    crate::bytesutil::lemma_all_ascii_concat(
        doc_part_kind() + json_escape(kind) + doc_part_api(),
        json_escape(api),
    );
    crate::bytesutil::lemma_all_ascii_concat(
        doc_part_kind() + json_escape(kind) + doc_part_api() + json_escape(api),
        doc_part_expiration(),
    );
    crate::bytesutil::lemma_all_ascii_concat(
        doc_part_kind() + json_escape(kind) + doc_part_api() + json_escape(api)
            + doc_part_expiration(),
        json_escape(exp),
    );
    crate::bytesutil::lemma_all_ascii_concat(
        doc_part_kind() + json_escape(kind) + doc_part_api() + json_escape(api)
            + doc_part_expiration() + json_escape(exp),
        doc_part_token(),
    );
    crate::bytesutil::lemma_all_ascii_concat(
        doc_part_kind() + json_escape(kind) + doc_part_api() + json_escape(api)
            + doc_part_expiration() + json_escape(exp) + doc_part_token(),
        json_escape(tok),
    );
    crate::bytesutil::lemma_all_ascii_concat(
        doc_part_kind() + json_escape(kind) + doc_part_api() + json_escape(api)
            + doc_part_expiration() + json_escape(exp) + doc_part_token() + json_escape(tok),
        doc_part_end(),
    );
}

fn json_escape_needed(b: u8) -> (r: bool)
    ensures
        r == (b == 0x22 || b == 0x5c || b < 0x20),
{
    b == 0x22 || b == 0x5c || b < 0x20
}

/// Appends the escaped form of `s`.
fn append_json_escaped(dst: &mut Vec<u8>, s: &[u8])
    ensures
        final(dst)@ == old(dst)@ + json_escape(s@),
{
    let n = s.len();
    let mut i: usize = 0;
    assert(s@.skip(0) =~= s@);
    while i < n
        invariant
            n == s@.len(),
            i <= n,
            dst@ + json_escape(s@.skip(i as int)) == old(dst)@ + json_escape(s@),
        decreases n - i,
    {
        let b = s[i];
        if b == 0x22 {
            dst.push(0x5c);
            dst.push(0x22);
        } else if b == 0x5c {
            dst.push(0x5c);
            dst.push(0x5c);
        } else if b < 0x20 {
            dst.push(0x5c);
            dst.push(0x75);
            dst.push(0x30);
            dst.push(0x30);
            dst.push(crate::query::hex_digit_e(b / 16));
            dst.push(crate::query::hex_digit_e(b % 16));
        } else {
            dst.push(b);
        }
        proof {
            assert(s@.skip(i as int).drop_first() =~= s@.skip(i + 1));
            assert(s@.skip(i as int)[0] == s@[i as int]);
            assert(dst@ + json_escape(s@.skip(i + 1)) =~= old(dst)@ + json_escape(s@));
        }
        i = i + 1;
    }
    assert(s@.skip(n as int) =~= Seq::<u8>::empty());
    assert(final(dst)@ =~= old(dst)@ + json_escape(s@));
}

/// Encodes a signed URL as the bearer token string.
pub fn encode_token(signed_url: &str) -> (r: String)
    ensures
        encode_utf8(r@) == bearer_bytes(encode_utf8(signed_url@)),
        all_ascii(encode_utf8(r@)),
        json_plain(encode_utf8(r@)),
{
    let url_bytes = string_to_bytes(signed_url);
    let mut v = bearer_prefix_vec();
    assert(all_ascii(v@));
    let encoded = b64url_encode(url_bytes.as_slice());
    proof {
        crate::b64::lemma_b64url_ascii(encoded@);
    }
    push_bytes(&mut v, encoded.as_slice());
    assert(v@ =~= bearer_bytes(encode_utf8(signed_url@)));
    proof {
        assert(json_plain(bearer_prefix_bytes()));
        assert forall|i: int| 0 <= i < v@.len() implies (v@[i] != 0x22 && v@[i] != 0x5c && v@[i]
            >= 0x20) by {
            if i >= bearer_prefix_bytes().len() {
                assert(is_b64url_byte(encoded@[i - bearer_prefix_bytes().len()]));
            }
        }
    }
    ascii_to_string(v)
}

/// Strips the bearer prefix and decodes the base64 payload: on any token
/// minted from an ASCII URL this succeeds and returns that URL, byte for
/// byte.
pub fn decode_token(token: &str) -> (r: Option<String>)
    ensures
        forall|url: Seq<u8>|
            encode_utf8(token@) == bearer_bytes(url) && all_ascii(url) ==> (r is Some
                && encode_utf8(r->0@) == url),
{
    let token_bytes = string_to_bytes(token);
    let prefix = bearer_prefix_vec();
    if !starts_with(token_bytes.as_slice(), prefix.as_slice()) {
        proof {
            assert forall|url: Seq<u8>| encode_utf8(token@) != bearer_bytes(url) || !all_ascii(
                url,
            ) by {
                if encode_utf8(token@) == bearer_bytes(url) {
                    assert(bearer_prefix_bytes().is_prefix_of(bearer_bytes(url)));
                }
            }
        }
        return None;
    }
    let n = token_bytes.len();
    let payload = slice_from(token_bytes.as_slice(), prefix.len());
    let decoded = match b64url_decode(payload) {
        Some(d) => d,
        None => {
            proof {
                assert forall|url: Seq<u8>| encode_utf8(token@) != bearer_bytes(url) || !all_ascii(
                    url,
                ) by {
                    if encode_utf8(token@) == bearer_bytes(url) {
                        assert(encode_utf8(token@).skip(11) =~= b64url_of(url));
                    }
                }
            }
            return None;
        },
    };
    proof {
        assert forall|url: Seq<u8>|
            encode_utf8(token@) == bearer_bytes(url) && all_ascii(url) implies decoded@ == url by {
            assert(encode_utf8(token@).skip(11) =~= b64url_of(url));
        }
    }
    match bytes_to_string(decoded) {
        Some(s) => Some(s),
        None => None,
    }
}

/// The bytes of `s` from `from` on.
fn slice_from<'a>(s: &'a [u8], from: usize) -> (r: &'a [u8])
    requires
        from <= s@.len(),
    ensures
        r@ == s@.skip(from as int),
{
    slice_subrange(s, from, s.len())
}

/// Builds the exec-credential document for a presigned request: the token
/// encodes the signed URL, and the advertised expiration is the signing
/// timestamp plus the expiry window — the token's useful life is governed
/// by the signature, not by the identity's credential expiration — except
/// that it never exceeds an assumed-role identity's own expiration.
pub fn encode(signed: &SignedRequest, identity: &Identity, request_timestamp: u64) -> (r:
    K8sToken)
    requires
        request_timestamp + crate::sigv4::EXPIRY_SECONDS <= MAX_TIMESTAMP,
    ensures
        encode_utf8(r.kind@) == kind_bytes(),
        encode_utf8(r.api_version@) == api_version_bytes(),
        encode_utf8(r.status.expiration_timestamp@) == rfc3339_bytes(
            advertised_expiration(
                *identity,
                request_timestamp + crate::sigv4::EXPIRY_SECONDS,
            ),
        ),
        encode_utf8(r.status.token@) == bearer_bytes(encode_utf8(signed.uri@)),
        all_ascii(encode_utf8(r.status.token@)),
        json_plain(encode_utf8(r.status.token@)),
        json_plain(encode_utf8(r.status.expiration_timestamp@)),
{
    let advertised = advertised_expiration_e(
        identity,
        request_timestamp + crate::sigv4::EXPIRY_SECONDS,
    );
    let expiration_bytes = format_rfc3339(advertised);
    proof {
        crate::rfc3339::lemma_rfc3339_ascii(advertised as int);
        crate::rfc3339::lemma_rfc3339_byte_range(advertised as int);
    }
    let expiration_timestamp = ascii_to_string(expiration_bytes);
    let token = encode_token(signed.uri.as_str());
    let kind = ascii_to_string(kind_vec());
    let api_version = ascii_to_string(api_version_vec());
    K8sToken { kind, api_version, status: K8sTokenStatus { expiration_timestamp, token } }
}

/// Serializes the document. The emitted bytes are always the fixed-shape
/// JSON object; the conversion to a `String` fails only if a field held
/// bytes that no UTF-8 string can carry alongside the rest, which the
/// pipeline's own fields never do.
pub fn serialize_k8s_token(t: &K8sToken) -> (r: Result<String, GetEKSTokenError>)
    ensures
        r matches Ok(s) ==> encode_utf8(s@) == json_doc(
            encode_utf8(t.kind@),
            encode_utf8(t.api_version@),
            encode_utf8(t.status.expiration_timestamp@),
            encode_utf8(t.status.token@),
        ),
        all_ascii(
            json_doc(
                encode_utf8(t.kind@),
                encode_utf8(t.api_version@),
                encode_utf8(t.status.expiration_timestamp@),
                encode_utf8(t.status.token@),
            ),
        ) ==> r is Ok,
        r matches Err(e) ==> e is FailedToSerializeToken,
{
    let mut v = doc_part_kind_vec();
    append_json_escaped(&mut v, string_to_bytes(t.kind.as_str()).as_slice());
    let mut part = doc_part_api_vec();
    push_bytes(&mut v, part.as_slice());
    append_json_escaped(&mut v, string_to_bytes(t.api_version.as_str()).as_slice());
    part = doc_part_expiration_vec();
    push_bytes(&mut v, part.as_slice());
    append_json_escaped(&mut v, string_to_bytes(t.status.expiration_timestamp.as_str()).as_slice());
    part = doc_part_token_vec();
    push_bytes(&mut v, part.as_slice());
    append_json_escaped(&mut v, string_to_bytes(t.status.token.as_str()).as_slice());
    part = doc_part_end_vec();
    push_bytes(&mut v, part.as_slice());
    assert(v@ =~= json_doc(
        encode_utf8(t.kind@),
        encode_utf8(t.api_version@),
        encode_utf8(t.status.expiration_timestamp@),
        encode_utf8(t.status.token@),
    ));
    match bytes_to_string(v) {
        Some(s) => Ok(s),
        None => Err(
            GetEKSTokenError::FailedToSerializeToken(
                String::from_str("the document is not a UTF-8 string"),
            ),
        ),
    }
}

/// Finds the first `"` at or after `from`.
fn find_quote(b: &[u8], from: usize) -> (r: Option<usize>)
    requires
        from <= b@.len(),
    ensures
        match r {
            Some(q) => from <= q < b@.len() && b@[q as int] == 0x22 && forall|j: int|
                from <= j < q ==> b@[j] != 0x22,
            None => forall|j: int| from <= j < b@.len() ==> b@[j] != 0x22,
        },
{
    let n = b.len();
    let mut i: usize = from;
    while i < n
        invariant
            from <= i <= n,
            n == b@.len(),
            forall|j: int| from <= j < i ==> b@[j] != 0x22,
        decreases n - i,
    {
        if b[i] == 0x22 {
            return Some(i);
        }
        i = i + 1;
    }
    None
}

#[verifier::rlimit(100)]
fn bearer_prefix_vec() -> (v: Vec<u8>)
    ensures
        v@ == bearer_prefix_bytes(),
{
    let mut v: Vec<u8> = Vec::new();
    v.push(0x6b);
    v.push(0x38);
    v.push(0x73);
    v.push(0x2d);
    v.push(0x61);
    v.push(0x77);
    v.push(0x73);
    v.push(0x2d);
    v.push(0x76);
    v.push(0x31);
    v.push(0x2e);
    assert(v@ =~= bearer_prefix_bytes());
    v
}

#[verifier::rlimit(100)]
fn kind_vec() -> (v: Vec<u8>)
    ensures
        v@ == kind_bytes(),
{
    let mut v: Vec<u8> = Vec::new();
    v.push(0x45);
    v.push(0x78);
    v.push(0x65);
    v.push(0x63);
    v.push(0x43);
    v.push(0x72);
    v.push(0x65);
    v.push(0x64);
    v.push(0x65);
    v.push(0x6e);
    v.push(0x74);
    v.push(0x69);
    v.push(0x61);
    v.push(0x6c);
    assert(v@ =~= kind_bytes());
    v
}

#[verifier::rlimit(100)]
fn api_version_vec() -> (v: Vec<u8>)
    ensures
        v@ == api_version_bytes(),
{
    let mut v: Vec<u8> = Vec::new();
    v.push(0x63);
    v.push(0x6c);
    v.push(0x69);
    v.push(0x65);
    v.push(0x6e);
    v.push(0x74);
    v.push(0x2e);
    v.push(0x61);
    v.push(0x75);
    v.push(0x74);
    v.push(0x68);
    v.push(0x65);
    v.push(0x6e);
    v.push(0x74);
    v.push(0x69);
    v.push(0x63);
    v.push(0x61);
    v.push(0x74);
    v.push(0x69);
    v.push(0x6f);
    v.push(0x6e);
    v.push(0x2e);
    v.push(0x6b);
    v.push(0x38);
    v.push(0x73);
    v.push(0x2e);
    v.push(0x69);
    v.push(0x6f);
    v.push(0x2f);
    v.push(0x76);
    v.push(0x31);
    v.push(0x62);
    v.push(0x65);
    v.push(0x74);
    v.push(0x61);
    v.push(0x31);
    assert(v@ =~= api_version_bytes());
    v
}

#[verifier::rlimit(100)]
fn doc_part_kind_vec() -> (v: Vec<u8>)
    ensures
        v@ == doc_part_kind(),
{
    let mut v: Vec<u8> = Vec::new();
    v.push(0x7b);
    v.push(0x22);
    v.push(0x6b);
    v.push(0x69);
    v.push(0x6e);
    v.push(0x64);
    v.push(0x22);
    v.push(0x3a);
    v.push(0x22);
    assert(v@ =~= doc_part_kind());
    v
}

#[verifier::rlimit(100)]
fn doc_part_api_vec() -> (v: Vec<u8>)
    ensures
        v@ == doc_part_api(),
{
    let mut v: Vec<u8> = Vec::new();
    v.push(0x22);
    v.push(0x2c);
    v.push(0x22);
    v.push(0x61);
    v.push(0x70);
    v.push(0x69);
    v.push(0x56);
    v.push(0x65);
    v.push(0x72);
    v.push(0x73);
    v.push(0x69);
    v.push(0x6f);
    v.push(0x6e);
    v.push(0x22);
    v.push(0x3a);
    v.push(0x22);
    assert(v@ =~= doc_part_api());
    v
}

#[verifier::rlimit(100)]
fn doc_part_expiration_vec() -> (v: Vec<u8>)
    ensures
        v@ == doc_part_expiration(),
{
    let mut v: Vec<u8> = Vec::new();
    v.push(0x22);
    v.push(0x2c);
    v.push(0x22);
    v.push(0x73);
    v.push(0x70);
    v.push(0x65);
    v.push(0x63);
    v.push(0x22);
    v.push(0x3a);
    v.push(0x7b);
    v.push(0x7d);
    v.push(0x2c);
    v.push(0x22);
    v.push(0x73);
    v.push(0x74);
    v.push(0x61);
    v.push(0x74);
    v.push(0x75);
    v.push(0x73);
    v.push(0x22);
    v.push(0x3a);
    v.push(0x7b);
    v.push(0x22);
    v.push(0x65);
    v.push(0x78);
    v.push(0x70);
    v.push(0x69);
    v.push(0x72);
    v.push(0x61);
    v.push(0x74);
    v.push(0x69);
    v.push(0x6f);
    v.push(0x6e);
    v.push(0x54);
    v.push(0x69);
    v.push(0x6d);
    v.push(0x65);
    v.push(0x73);
    v.push(0x74);
    v.push(0x61);
    v.push(0x6d);
    v.push(0x70);
    v.push(0x22);
    v.push(0x3a);
    v.push(0x22);
    assert(v@ =~= doc_part_expiration());
    v
}

#[verifier::rlimit(100)]
fn doc_part_token_vec() -> (v: Vec<u8>)
    ensures
        v@ == doc_part_token(),
{
    let mut v: Vec<u8> = Vec::new();
    v.push(0x22);
    v.push(0x2c);
    v.push(0x22);
    v.push(0x74);
    v.push(0x6f);
    v.push(0x6b);
    v.push(0x65);
    v.push(0x6e);
    v.push(0x22);
    v.push(0x3a);
    v.push(0x22);
    assert(v@ =~= doc_part_token());
    v
}

#[verifier::rlimit(100)]
fn doc_part_end_vec() -> (v: Vec<u8>)
    ensures
        v@ == doc_part_end(),
{
    let mut v: Vec<u8> = Vec::new();
    v.push(0x22);
    v.push(0x7d);
    v.push(0x7d);
    assert(v@ =~= doc_part_end());
    v
}

/// Content with no `"` byte.
pub open spec fn quote_free(s: Seq<u8>) -> bool {
    forall|i: int| 0 <= i < s.len() ==> s[i] != 0x22
}

/// The fixed bytes of every minted document up to the expiration value.
pub open spec fn canonical_prefix() -> Seq<u8> {
    doc_part_kind() + kind_bytes() + doc_part_api() + api_version_bytes() + doc_part_expiration()
}

#[verifier::rlimit(100)]
fn canonical_prefix_vec() -> (v: Vec<u8>)
    ensures
        v@ == canonical_prefix(),
{
    let mut v = doc_part_kind_vec();
    let mut part = kind_vec();
    push_bytes(&mut v, part.as_slice());
    part = doc_part_api_vec();
    push_bytes(&mut v, part.as_slice());
    part = api_version_vec();
    push_bytes(&mut v, part.as_slice());
    part = doc_part_expiration_vec();
    push_bytes(&mut v, part.as_slice());
    assert(v@ =~= canonical_prefix());
    v
}

/// Where everything sits inside a canonical document with quote-free
/// values.
proof fn lemma_canonical_positions(e: Seq<u8>, t: Seq<u8>)
    requires
        quote_free(e),
        quote_free(t),
    ensures
        ({
            let d = canonical_doc(e, t);
            let p0 = canonical_prefix().len() as int;
            let q1 = p0 + e.len() as int;
            let p1 = q1 + 11;
            let q2 = p1 + t.len() as int;
            &&& d.len() == q2 + 3
            &&& d.subrange(0, p0) == canonical_prefix()
            &&& d.subrange(p0, q1) == e
            &&& d.subrange(q1, p1) == doc_part_token()
            &&& d.subrange(p1, q2) == t
            &&& d.subrange(q2, q2 + 3) == doc_part_end()
            &&& d[q1] == 0x22
            &&& d[q2] == 0x22
            &&& forall|j: int| p0 <= j < q1 ==> d[j] != 0x22
            &&& forall|j: int| p1 <= j < q2 ==> d[j] != 0x22
        }),
{
    let d = canonical_doc(e, t);
    let p0 = canonical_prefix().len() as int;
    let q1 = p0 + e.len() as int;
    let p1 = q1 + 11;
    let q2 = p1 + t.len() as int;
    assert(canonical_prefix().len() == 120);
    assert(doc_part_token().len() == 11);
    assert(doc_part_end().len() == 3);
    assert(d =~= canonical_prefix() + e + doc_part_token() + t + doc_part_end());
    assert(d.subrange(0, p0) =~= canonical_prefix());
    assert(d.subrange(p0, q1) =~= e);
    assert(d.subrange(q1, p1) =~= doc_part_token());
    assert(d.subrange(p1, q2) =~= t);
    assert(d.subrange(q2, q2 + 3) =~= doc_part_end());
    assert(d[q1] == doc_part_token()[0]);
    assert(d[q2] == doc_part_end()[0]);
}


/// Two canonical documents with the same bytes carry the same values.
pub proof fn lemma_canonical_doc_injective(e1: Seq<u8>, t1: Seq<u8>, e2: Seq<u8>, t2: Seq<u8>)
    requires
        quote_free(e1),
        quote_free(t1),
        quote_free(e2),
        quote_free(t2),
        canonical_doc(e1, t1) == canonical_doc(e2, t2),
    ensures
        e1 == e2,
        t1 == t2,
{
    lemma_canonical_positions(e1, t1);
    lemma_canonical_positions(e2, t2);
    let d = canonical_doc(e1, t1);
    let p0 = canonical_prefix().len() as int;
    if e1.len() < e2.len() {
        assert(d[p0 + e1.len()] == 0x22);
        assert(d[p0 + e1.len()] != 0x22);
    }
    if e2.len() < e1.len() {
        assert(d[p0 + e2.len()] == 0x22);
        assert(d[p0 + e2.len()] != 0x22);
    }
    assert(e1 =~= d.subrange(p0, p0 + e1.len() as int));
    assert(e2 =~= d.subrange(p0, p0 + e2.len() as int));
    assert(e1 == e2);
    assert(t1.len() == t2.len());
    let p1 = p0 + e1.len() as int + 11;
    assert(t1 =~= d.subrange(p1, p1 + t1.len() as int));
    assert(t2 =~= d.subrange(p1, p1 + t2.len() as int));
}

/// Takes a minted document apart again: the expiration value and the token
/// value, exactly when the bytes are a canonical document. Anything else is
/// rejected.
#[verifier::rlimit(100)]
pub fn parse_exec_credential(b: &[u8]) -> (r: Option<(Vec<u8>, Vec<u8>)>)
    ensures
        r matches Some(p) ==> (b@ == canonical_doc(p.0@, p.1@) && quote_free(p.0@) && quote_free(
            p.1@,
        )),
        forall|e: Seq<u8>, t: Seq<u8>|
            b@ == canonical_doc(e, t) && quote_free(e) && quote_free(t) ==> (r matches Some(p)
                && p.0@ == e && p.1@ == t),
{
    let prefix = canonical_prefix_vec();
    if !starts_with(b, prefix.as_slice()) {
        proof {
            assert forall|e: Seq<u8>, t: Seq<u8>|
                !(b@ == canonical_doc(e, t) && quote_free(e) && quote_free(t)) by {
                if b@ == canonical_doc(e, t) && quote_free(e) && quote_free(t) {
                    lemma_canonical_positions(e, t);
                    assert(canonical_prefix().is_prefix_of(b@));
                }
            }
        }
        return None;
    }
    let p0 = prefix.len();
    let q1 = match find_quote(b, p0) {
        Some(q) => q,
        None => {
            proof {
                assert forall|e: Seq<u8>, t: Seq<u8>|
                    !(b@ == canonical_doc(e, t) && quote_free(e) && quote_free(t)) by {
                    if b@ == canonical_doc(e, t) && quote_free(e) && quote_free(t) {
                        lemma_canonical_positions(e, t);
                        assert(b@[p0 + e.len() as int] == 0x22);
                    }
                }
            }
            return None;
        },
    };
    let exp = slice_to_vec(slice_subrange(b, p0, q1));
    let part = doc_part_token_vec();
    let len_ok = b.len() - q1 >= 11 && bytes_eq(slice_subrange(b, q1, q1 + 11), part.as_slice());
    if !len_ok {
        proof {
            assert forall|e: Seq<u8>, t: Seq<u8>|
                !(b@ == canonical_doc(e, t) && quote_free(e) && quote_free(t)) by {
                if b@ == canonical_doc(e, t) && quote_free(e) && quote_free(t) {
                    lemma_canonical_positions(e, t);
                    assert(q1 == p0 + e.len());
                    assert(b@.subrange(q1 as int, q1 + 11) == doc_part_token());
                }
            }
        }
        return None;
    }
    let p1 = q1 + 11;
    let q2 = match find_quote(b, p1) {
        Some(q) => q,
        None => {
            proof {
                assert forall|e: Seq<u8>, t: Seq<u8>|
                    !(b@ == canonical_doc(e, t) && quote_free(e) && quote_free(t)) by {
                    if b@ == canonical_doc(e, t) && quote_free(e) && quote_free(t) {
                        lemma_canonical_positions(e, t);
                        assert(q1 == p0 + e.len());
                        assert(b@[q1 + 11 + t.len() as int] == 0x22);
                    }
                }
            }
            return None;
        },
    };
    let tok = slice_to_vec(slice_subrange(b, p1, q2));
    let end_ok = b.len() - q2 == 3 && bytes_eq(
        slice_subrange(b, q2, q2 + 3),
        doc_part_end_vec().as_slice(),
    );
    if !end_ok {
        proof {
            assert forall|e: Seq<u8>, t: Seq<u8>|
                !(b@ == canonical_doc(e, t) && quote_free(e) && quote_free(t)) by {
                if b@ == canonical_doc(e, t) && quote_free(e) && quote_free(t) {
                    lemma_canonical_positions(e, t);
                    assert(q1 == p0 + e.len());
                    assert(q2 == q1 + 11 + t.len());
                    assert(b@.subrange(q2 as int, q2 + 3) == doc_part_end());
                }
            }
        }
        return None;
    }
    proof {
        assert(b@ =~= b@.subrange(0, p0 as int) + b@.subrange(p0 as int, q1 as int) + b@.subrange(
            q1 as int,
            p1 as int,
        ) + b@.subrange(p1 as int, q2 as int) + b@.subrange(q2 as int, b@.len() as int));
        assert(b@.subrange(0, p0 as int) == canonical_prefix());
        assert(b@ == canonical_doc(exp@, tok@));
        assert forall|e: Seq<u8>, t: Seq<u8>|
            b@ == canonical_doc(e, t) && quote_free(e) && quote_free(t) implies (exp@ == e && tok@
            == t) by {
            lemma_canonical_positions(e, t);
            assert(q1 == p0 + e.len());
            assert(q2 == p1 + t.len());
            assert(e == b@.subrange(p0 as int, q1 as int));
            assert(t == b@.subrange(p1 as int, q2 as int));
        }
    }
    Some((exp, tok))
}

} // verus!
