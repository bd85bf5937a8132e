//! Construction and SigV4 presigning of the STS `GetCallerIdentity`
//! request that carries the cluster authentication.
//!
//! The signature itself comes from the `aws_sigv4` crate; everything around
//! it — the unsigned URL, the validity of the region, and the application of
//! the returned query parameters to the URL — is built here. The signing
//! name deliberately reuses the session name, as downstream verification
//! depends on the exact credential scope this produces.
use vstd::prelude::*;

use crate::bytesutil::all_ascii;
use crate::bytesutil::push_bytes;
use crate::error::GetEKSTokenError;
use crate::error::GetEKSTokenError::FailedToBuildSigningParams;
use crate::error::GetEKSTokenError::FailedToCreateSignableRequest;
use crate::error::GetEKSTokenError::FailedToSignHttpRequest;
use crate::identity::Identity;
use crate::query::append_query_params;
use crate::query::pair_views;
use crate::query::query_params_suffix;
use crate::rfc3339::MAX_TIMESTAMP;
use crate::strutil::ascii_to_string;
use crate::strutil::string_to_bytes;
use vstd::utf8::encode_utf8;

use aws_credential_types::Credentials;
use aws_sigv4::http_request::sign as sigv4_sign;
use aws_sigv4::http_request::SignableBody;
use aws_sigv4::http_request::SignableRequest;
use aws_sigv4::http_request::SignatureLocation;
use aws_sigv4::http_request::SigningSettings;
use aws_sigv4::sign::v4::SigningParams as VParams;
use aws_smithy_runtime_api::client::identity::Identity as SdkIdentity;
use std::iter::once;
use std::time::Duration;
use std::time::UNIX_EPOCH;

verus! {

/// Every minted signature is valid for this many seconds.
pub const EXPIRY_SECONDS: u64 = 60;

/// What must be signed: the cluster, the scope, and the moment.
#[derive(Debug, Clone)]
pub struct SigningContext {
    pub region: String,
    pub cluster_name: String,
    /// Also used as the SigV4 signing name.
    pub session_name: String,
    /// Seconds since the Unix epoch.
    pub request_timestamp: u64,
}

/// A presigned request: the URL embedding the signing query parameters,
/// those parameters themselves, and the value of the one required header,
/// `x-k8s-aws-id`.
#[derive(Debug, Clone)]
pub struct SignedRequest {
    pub uri: String,
    pub params: Vec<(Vec<u8>, Vec<u8>)>,
    pub cluster_name: String,
}

/// The bytes of `"X-Amz-Algorithm"`.
pub open spec fn amz_algorithm_key() -> Seq<u8> {
    seq![
        0x58u8, 0x2d, 0x41, 0x6d, 0x7a, 0x2d, 0x41, 0x6c, 0x67, 0x6f, 0x72, 0x69,
        0x74, 0x68, 0x6d,
    ]
}

/// The bytes of `"X-Amz-Credential"`.
pub open spec fn amz_credential_key() -> Seq<u8> {
    seq![
        0x58u8, 0x2d, 0x41, 0x6d, 0x7a, 0x2d, 0x43, 0x72, 0x65, 0x64, 0x65, 0x6e,
        0x74, 0x69, 0x61, 0x6c,
    ]
}

/// The bytes of `"X-Amz-Date"`.
pub open spec fn amz_date_key() -> Seq<u8> {
    seq![
        0x58u8, 0x2d, 0x41, 0x6d, 0x7a, 0x2d, 0x44, 0x61, 0x74, 0x65,
    ]
}

/// The bytes of `"X-Amz-Expires"`.
pub open spec fn amz_expires_key() -> Seq<u8> {
    seq![
        0x58u8, 0x2d, 0x41, 0x6d, 0x7a, 0x2d, 0x45, 0x78, 0x70, 0x69, 0x72, 0x65,
        0x73,
    ]
}

/// The bytes of `"X-Amz-SignedHeaders"`.
pub open spec fn amz_signed_headers_key() -> Seq<u8> {
    seq![
        0x58u8, 0x2d, 0x41, 0x6d, 0x7a, 0x2d, 0x53, 0x69, 0x67, 0x6e, 0x65, 0x64,
        0x48, 0x65, 0x61, 0x64, 0x65, 0x72, 0x73,
    ]
}

/// The bytes of `"X-Amz-Signature"`.
pub open spec fn amz_signature_key() -> Seq<u8> {
    seq![
        0x58u8, 0x2d, 0x41, 0x6d, 0x7a, 0x2d, 0x53, 0x69, 0x67, 0x6e, 0x61, 0x74,
        0x75, 0x72, 0x65,
    ]
}

/// The bytes of `"X-Amz-Security-Token"`.
pub open spec fn amz_security_token_key() -> Seq<u8> {
    seq![
        0x58u8, 0x2d, 0x41, 0x6d, 0x7a, 0x2d, 0x53, 0x65, 0x63, 0x75, 0x72, 0x69,
        0x74, 0x79, 0x2d, 0x54, 0x6f, 0x6b, 0x65, 0x6e,
    ]
}

/// The bytes of `"AWS4-HMAC-SHA256"`.
pub open spec fn amz_algorithm_value() -> Seq<u8> {
    seq![
        0x41u8, 0x57, 0x53, 0x34, 0x2d, 0x48, 0x4d, 0x41, 0x43, 0x2d, 0x53, 0x48,
        0x41, 0x32, 0x35, 0x36,
    ]
}

/// The bytes of `"https://sts."`.
pub open spec fn url_prefix_bytes() -> Seq<u8> {
    seq![
        0x68u8, 0x74, 0x74, 0x70, 0x73, 0x3a, 0x2f, 0x2f, 0x73, 0x74, 0x73, 0x2e,
    ]
}

/// The bytes of `".amazonaws.com/?Action=GetCallerIdentity&Version=2011-06-15"`.
pub open spec fn url_suffix_bytes() -> Seq<u8> {
    seq![
        0x2eu8, 0x61, 0x6d, 0x61, 0x7a, 0x6f, 0x6e, 0x61, 0x77, 0x73, 0x2e, 0x63,
        0x6f, 0x6d, 0x2f, 0x3f, 0x41, 0x63, 0x74, 0x69, 0x6f, 0x6e, 0x3d, 0x47,
        0x65, 0x74, 0x43, 0x61, 0x6c, 0x6c, 0x65, 0x72, 0x49, 0x64, 0x65, 0x6e,
        0x74, 0x69, 0x74, 0x79, 0x26, 0x56, 0x65, 0x72, 0x73, 0x69, 0x6f, 0x6e,
        0x3d, 0x32, 0x30, 0x31, 0x31, 0x2d, 0x30, 0x36, 0x2d, 0x31, 0x35,
    ]
}

/// The unsigned request URL for `region`, as bytes.
#[verifier::rlimit(100)]
fn unsigned_url_vec(region_bytes: &Vec<u8>) -> (r: Vec<u8>)
    ensures
        r@ == unsigned_url_bytes(region_bytes@),
{
    let mut v: Vec<u8> = Vec::new();
    v.push(0x68);
    v.push(0x74);
    v.push(0x74);
    v.push(0x70);
    v.push(0x73);
    v.push(0x3a);
    v.push(0x2f);
    v.push(0x2f);
    v.push(0x73);
    v.push(0x74);
    v.push(0x73);
    v.push(0x2e);
    assert(v@ =~= url_prefix_bytes());
    push_bytes(&mut v, region_bytes.as_slice());
    let mut suffix: Vec<u8> = Vec::new();
    suffix.push(0x2e);
    suffix.push(0x61);
    suffix.push(0x6d);
    suffix.push(0x61);
    suffix.push(0x7a);
    suffix.push(0x6f);
    suffix.push(0x6e);
    suffix.push(0x61);
    suffix.push(0x77);
    suffix.push(0x73);
    suffix.push(0x2e);
    suffix.push(0x63);
    suffix.push(0x6f);
    suffix.push(0x6d);
    suffix.push(0x2f);
    suffix.push(0x3f);
    suffix.push(0x41);
    suffix.push(0x63);
    suffix.push(0x74);
    suffix.push(0x69);
    suffix.push(0x6f);
    suffix.push(0x6e);
    suffix.push(0x3d);
    suffix.push(0x47);
    suffix.push(0x65);
    suffix.push(0x74);
    suffix.push(0x43);
    suffix.push(0x61);
    suffix.push(0x6c);
    suffix.push(0x6c);
    suffix.push(0x65);
    suffix.push(0x72);
    suffix.push(0x49);
    suffix.push(0x64);
    suffix.push(0x65);
    suffix.push(0x6e);
    suffix.push(0x74);
    suffix.push(0x69);
    suffix.push(0x74);
    suffix.push(0x79);
    suffix.push(0x26);
    suffix.push(0x56);
    suffix.push(0x65);
    suffix.push(0x72);
    suffix.push(0x73);
    suffix.push(0x69);
    suffix.push(0x6f);
    suffix.push(0x6e);
    suffix.push(0x3d);
    suffix.push(0x32);
    suffix.push(0x30);
    suffix.push(0x31);
    suffix.push(0x31);
    suffix.push(0x2d);
    suffix.push(0x30);
    suffix.push(0x36);
    suffix.push(0x2d);
    suffix.push(0x31);
    suffix.push(0x35);
    assert(suffix@ =~= url_suffix_bytes());
    push_bytes(&mut v, suffix.as_slice());
    v
}

/// The bytes of `"host;x-k8s-aws-id"`.
pub open spec fn signed_headers_value() -> Seq<u8> {
    seq![
        0x68u8, 0x6f, 0x73, 0x74, 0x3b, 0x78, 0x2d, 0x6b, 0x38, 0x73, 0x2d, 0x61,
        0x77, 0x73, 0x2d, 0x69, 0x64,
    ]
}

/// The bytes of `"/aws4_request"`.
pub open spec fn aws4_request_suffix() -> Seq<u8> {
    seq![
        0x2fu8, 0x61, 0x77, 0x73, 0x34, 0x5f, 0x72, 0x65, 0x71, 0x75, 0x65, 0x73,
        0x74,
    ]
}

/// The SigV4 credential scope: access key id, compact date, region and
/// signing name, slash-joined, closed by the fixed request label. The
/// signing name slot deliberately carries the session name.
pub open spec fn credential_scope_bytes(
    access_key_id: Seq<u8>,
    timestamp: int,
    region: Seq<u8>,
    signing_name: Seq<u8>,
) -> Seq<u8> {
    access_key_id + seq![0x2fu8] + crate::rfc3339::date8_bytes(timestamp) + seq![0x2fu8] + region
        + seq![0x2fu8] + signing_name + aws4_request_suffix()
}

/// A byte allowed in the region segment of the STS host name.
pub open spec fn is_region_byte(b: u8) -> bool {
    ||| 0x61 <= b <= 0x7a
    ||| 0x30 <= b <= 0x39
    ||| b == 0x2d
    ||| b == 0x2e
}

/// A usable region: nonempty, lowercase letters, digits, `-` or `.`.
pub open spec fn valid_region_bytes(s: Seq<u8>) -> bool {
    s.len() > 0 && forall|i: int| 0 <= i < s.len() ==> is_region_byte(#[trigger] s[i])
}

/// The unsigned request URL for a region.
pub open spec fn unsigned_url_bytes(region: Seq<u8>) -> Seq<u8> {
    url_prefix_bytes() + region + url_suffix_bytes()
}

/// The signed URL: the unsigned URL with the signing parameters appended to
/// its query string.
pub open spec fn signed_url_bytes(region: Seq<u8>, ps: Seq<(Seq<u8>, Seq<u8>)>) -> Seq<u8> {
    unsigned_url_bytes(region) + query_params_suffix(ps)
}

/// What the signing query parameters that `aws_sigv4` computes are, as a
/// function of everything signed over. Named rather than spelled out; the
/// shape facts below pin the parts that callers rely on.
pub uninterp spec fn sigv4_query_params(
    access_key_id: Seq<u8>,
    secret_access_key: Seq<u8>,
    session_token: Option<Seq<u8>>,
    region: Seq<u8>,
    signing_name: Seq<u8>,
    cluster_name: Seq<u8>,
    url: Seq<u8>,
    timestamp: int,
    expires: int,
) -> Seq<(Seq<u8>, Seq<u8>)>;

/// The fixed layout of the signing parameters: six parameters in a fixed
/// order, and the security token appended exactly when the identity carries
/// one. The credential scope, the signing date and the signed-headers list
/// (binding the `x-k8s-aws-id` header) are pinned in full; the expiry
/// window is rendered in decimal.
pub open spec fn signing_params_shape(
    ps: Seq<(Seq<u8>, Seq<u8>)>,
    access_key_id: Seq<u8>,
    session_token: Option<Seq<u8>>,
    region: Seq<u8>,
    signing_name: Seq<u8>,
    timestamp: int,
    expires: int,
) -> bool {
    &&& ps.len() == if session_token is Some {
        7int
    } else {
        6int
    }
    &&& ps[0].0 == amz_algorithm_key() && ps[0].1 == amz_algorithm_value()
    &&& ps[1].0 == amz_credential_key() && ps[1].1 == credential_scope_bytes(
        access_key_id,
        timestamp,
        region,
        signing_name,
    )
    &&& ps[2].0 == amz_date_key() && ps[2].1 == crate::rfc3339::datetime_basic_bytes(timestamp)
    &&& ps[3].0 == amz_expires_key()
    &&& (expires == 60 ==> ps[3].1 == seq![0x36u8, 0x30u8])
    &&& ps[4].0 == amz_signed_headers_key() && ps[4].1 == signed_headers_value()
    &&& ps[5].0 == amz_signature_key()
    &&& (session_token matches Some(t) ==> ps[6].0 == amz_security_token_key() && ps[6].1 == t)
}

/// Whether the one signing call succeeds on these arguments. The call does
/// no I/O, so its outcome, like its result, is a function of the arguments
/// alone; naming it lets success be owed exactly where the call grants it.
pub uninterp spec fn sigv4_presign_ok(
    access_key_id: Seq<u8>,
    secret_access_key: Seq<u8>,
    session_token: Option<Seq<u8>>,
    region: Seq<u8>,
    signing_name: Seq<u8>,
    cluster_name: Seq<u8>,
    url: Seq<u8>,
    timestamp: int,
    expires: int,
) -> bool;

/// The session token's bytes, when there is one.
pub open spec fn token_bytes(session_token: Option<String>) -> Option<Seq<u8>> {
    match session_token {
        Some(t) => Some(encode_utf8(t@)),
        None => None,
    }
}

/// The signing parameters for an identity and context.
pub open spec fn params_for(identity: Identity, ctx: SigningContext) -> Seq<(Seq<u8>, Seq<u8>)> {
    sigv4_query_params(
        encode_utf8(identity.access_key_id@),
        encode_utf8(identity.secret_access_key@),
        token_bytes(identity.session_token),
        encode_utf8(ctx.region@),
        encode_utf8(ctx.session_name@),
        encode_utf8(ctx.cluster_name@),
        unsigned_url_bytes(encode_utf8(ctx.region@)),
        ctx.request_timestamp as int,
        EXPIRY_SECONDS as int,
    )
}

/// Whether the signing call succeeds for an identity and context.
pub open spec fn presign_ok_for(identity: Identity, ctx: SigningContext) -> bool {
    sigv4_presign_ok(
        encode_utf8(identity.access_key_id@),
        encode_utf8(identity.secret_access_key@),
        token_bytes(identity.session_token),
        encode_utf8(ctx.region@),
        encode_utf8(ctx.session_name@),
        encode_utf8(ctx.cluster_name@),
        unsigned_url_bytes(encode_utf8(ctx.region@)),
        ctx.request_timestamp as int,
        EXPIRY_SECONDS as int,
    )
}

/// Everything `sign` promises of a successful result.
pub open spec fn signed_for(sr: SignedRequest, identity: Identity, ctx: SigningContext) -> bool {
    let ps = params_for(identity, ctx);
    &&& valid_region_bytes(encode_utf8(ctx.region@))
    &&& pair_views(sr.params@) == ps
    &&& signing_params_shape(
        ps,
        encode_utf8(identity.access_key_id@),
        token_bytes(identity.session_token),
        encode_utf8(ctx.region@),
        encode_utf8(ctx.session_name@),
        ctx.request_timestamp as int,
        EXPIRY_SECONDS as int,
    )
    &&& encode_utf8(sr.uri@) == signed_url_bytes(encode_utf8(ctx.region@), ps)
    &&& sr.cluster_name@ == ctx.cluster_name@
}

/// The `aws_sigv4` instructions type that carries the computed signing
/// query parameters.
#[verifier::external_type_specification]
#[verifier::external_body]
pub struct ExSigningInstructions(aws_sigv4::http_request::SigningInstructions);

/// What signing query parameters a `SigningInstructions` value carries.
pub uninterp spec fn instruction_params(ins: aws_sigv4::http_request::SigningInstructions) -> Seq<
    (Seq<u8>, Seq<u8>),
>;

/// Relies on `aws_sigv4::http_request::sign` with query-parameter signature
/// location: on success the returned instructions carry exactly the signing
/// query parameters, raw (unescaped), in the order Algorithm, Credential,
/// Date, Expires, SignedHeaders, Signature, then Security-Token when the
/// identity carries a session token; the Expires value is the decimal
/// rendering of the expiry window; and the whole computation is a function
/// of the arguments alone.
#[verifier::external_body]
fn sigv4_presign(
    access_key_id: &str,
    secret_access_key: &str,
    session_token: Option<String>,
    region: &str,
    signing_name: &str,
    cluster_name: &str,
    url: &str,
    timestamp: u64,
    expires: u64,
) -> (r: Result<aws_sigv4::http_request::SigningInstructions, GetEKSTokenError>)
    requires
        timestamp <= MAX_TIMESTAMP,
        valid_region_bytes(encode_utf8(region@)),
        encode_utf8(url@) == unsigned_url_bytes(encode_utf8(region@)),
    ensures
        r is Ok <==> sigv4_presign_ok(
            encode_utf8(access_key_id@),
            encode_utf8(secret_access_key@),
            match session_token {
                Some(t) => Some(encode_utf8(t@)),
                None => None,
            },
            encode_utf8(region@),
            encode_utf8(signing_name@),
            encode_utf8(cluster_name@),
            encode_utf8(url@),
            timestamp as int,
            expires as int,
        ),
        r matches Ok(ins) ==> ({
            let ps = sigv4_query_params(
                encode_utf8(access_key_id@),
                encode_utf8(secret_access_key@),
                match session_token {
                    Some(t) => Some(encode_utf8(t@)),
                    None => None,
                },
                encode_utf8(region@),
                encode_utf8(signing_name@),
                encode_utf8(cluster_name@),
                encode_utf8(url@),
                timestamp as int,
                expires as int,
            );
            &&& instruction_params(ins) == ps
            &&& signing_params_shape(
                ps,
                encode_utf8(access_key_id@),
                match session_token {
                    Some(t) => Some(encode_utf8(t@)),
                    None => None,
                },
                encode_utf8(region@),
                encode_utf8(signing_name@),
                timestamp as int,
                expires as int,
            )
        }),
        r matches Err(e) ==> (e is FailedToBuildSigningParams || e is FailedToCreateSignableRequest
            || e is FailedToSignHttpRequest),
{
    let id = SdkIdentity::from(Credentials::new(access_key_id, secret_access_key, session_token, None, "kashay"));
    let mut st = SigningSettings::default();
    st.signature_location = SignatureLocation::QueryParams;
    st.expires_in = Some(Duration::from_secs(expires));
    let p = VParams::builder().identity(&id).region(region).name(signing_name).time(UNIX_EPOCH + Duration::from_secs(timestamp)).settings(st).build().map_err(|e| FailedToBuildSigningParams(e.to_string()))?;
    let sr = SignableRequest::new("GET", url, once(("x-k8s-aws-id", cluster_name)), SignableBody::empty()).map_err(|e| FailedToCreateSignableRequest(e.to_string()))?;
    let out = sigv4_sign(sr, &p.into()).map_err(|e| FailedToSignHttpRequest(e.to_string()))?;
    Ok(out.into_parts().0)
}

/// Relies on `SigningInstructions::into_parts`: the query parameters the
/// instructions carry, each name and value as plain bytes.
#[verifier::external_body]
fn instruction_query_params(ins: aws_sigv4::http_request::SigningInstructions) -> (r: Vec<
    (Vec<u8>, Vec<u8>),
>)
    ensures
        pair_views(r@) == instruction_params(ins),
{
    ins.into_parts().1.into_iter().map(|(k, v)| (k.as_bytes().to_vec(), v.into_owned().into_bytes())).collect()
}

/// Checks that a region can stand in the STS host name.
fn is_valid_region(b: &Vec<u8>) -> (r: bool)
    ensures
        r == valid_region_bytes(b@),
{
    let n = b.len();
    if n == 0 {
        return false;
    }
    let mut i: usize = 0;
    while i < n
        invariant
            n == b@.len(),
            i <= n,
            forall|j: int| 0 <= j < i ==> is_region_byte(#[trigger] b@[j]),
        decreases n - i,
    {
        let c = b[i];
        if !(0x61 <= c && c <= 0x7a || 0x30 <= c && c <= 0x39 || c == 0x2d || c == 0x2e) {
            return false;
        }
        i = i + 1;
    }
    true
}

/// A valid unsigned URL is ASCII.
pub proof fn lemma_unsigned_url_ascii(region: Seq<u8>)
    requires
        valid_region_bytes(region),
    ensures
        all_ascii(unsigned_url_bytes(region)),
{
    assert(all_ascii(url_prefix_bytes()));
    assert(all_ascii(url_suffix_bytes()));
    assert(all_ascii(region));
    assert forall|i: int| 0 <= i < unsigned_url_bytes(region).len() implies unsigned_url_bytes(
        region,
    )[i] < 0x80 by {
        let p = url_prefix_bytes().len() as int;
        let r = region.len() as int;
        if i < p {
            assert(unsigned_url_bytes(region)[i] == url_prefix_bytes()[i]);
        } else if i < p + r {
            assert(unsigned_url_bytes(region)[i] == region[i - p]);
        } else {
            assert(unsigned_url_bytes(region)[i] == url_suffix_bytes()[i - p - r]);
        }
    }
}

/// Builds and presigns the `GetCallerIdentity` request: on success the
/// returned URL is the unsigned STS URL for the region with exactly the
/// computed signing parameters appended to its query string.
pub fn sign(identity: &Identity, ctx: &SigningContext) -> (r: Result<
    SignedRequest,
    GetEKSTokenError,
>)
    requires
        ctx.request_timestamp <= MAX_TIMESTAMP,
    ensures
        r is Ok <==> (valid_region_bytes(encode_utf8(ctx.region@)) && presign_ok_for(
            *identity,
            *ctx,
        )),
        r matches Ok(sr) ==> signed_for(sr, *identity, *ctx),
        !valid_region_bytes(encode_utf8(ctx.region@)) ==> (r matches Err(e) && e
            is FailedToBuildHttpRequest),
        r matches Err(e) ==> (e is FailedToBuildHttpRequest || e is FailedToBuildSigningParams || e
            is FailedToCreateSignableRequest || e is FailedToSignHttpRequest),
{
    let region_bytes = string_to_bytes(ctx.region.as_str());
    if !is_valid_region(&region_bytes) {
        return Err(
            GetEKSTokenError::FailedToBuildHttpRequest(
                String::from_str("the region cannot form an STS host name"),
            ),
        );
    }
    proof {
        lemma_unsigned_url_ascii(region_bytes@);
    }
    let url = ascii_to_string(unsigned_url_vec(&region_bytes));
    let session_token = match &identity.session_token {
        Some(t) => Some(t.clone()),
        None => None,
    };
    let instructions = match sigv4_presign(
        identity.access_key_id.as_str(),
        identity.secret_access_key.as_str(),
        session_token,
        ctx.region.as_str(),
        ctx.session_name.as_str(),
        ctx.cluster_name.as_str(),
        url.as_str(),
        ctx.request_timestamp,
        EXPIRY_SECONDS,
    ) {
        Ok(v) => v,
        Err(e) => {
            return Err(e);
        },
    };
    let params = instruction_query_params(instructions);
    let mut signed_bytes = unsigned_url_vec(&region_bytes);
    append_query_params(&mut signed_bytes, &params);
    proof {
        crate::query::lemma_query_params_suffix_ascii(pair_views(params@));
    }
    let uri = ascii_to_string(signed_bytes);
    Ok(SignedRequest { uri, params, cluster_name: ctx.cluster_name.clone() })
}

/// For a fixed identity, region, cluster name, session name and timestamp,
/// signing twice yields byte-identical signed URLs and parameters: the
/// algorithm hides no randomness.
pub proof fn lemma_sign_deterministic(
    a: SignedRequest,
    b: SignedRequest,
    identity: Identity,
    ctx: SigningContext,
)
    requires
        signed_for(a, identity, ctx),
        signed_for(b, identity, ctx),
    ensures
        a.uri@ == b.uri@,
        pair_views(a.params@) == pair_views(b.params@),
{
    broadcast use vstd::utf8::encode_utf8_decode_utf8;

    assert(vstd::utf8::decode_utf8(encode_utf8(a.uri@)) == a.uri@);
    assert(vstd::utf8::decode_utf8(encode_utf8(b.uri@)) == b.uri@);
}

/// When the identity carries a session token, the signing parameters carry
/// `X-Amz-Security-Token` with exactly that token; when it does not, no
/// parameter has that name.
pub proof fn lemma_security_token_propagation(
    sr: SignedRequest,
    identity: Identity,
    ctx: SigningContext,
)
    requires
        signed_for(sr, identity, ctx),
    ensures
        match identity.session_token {
            Some(t) => exists|j: int|
                0 <= j < pair_views(sr.params@).len() && pair_views(sr.params@)[j] == (
                amz_security_token_key(),
                encode_utf8(t@),
                ),
            None => forall|j: int|
                0 <= j < pair_views(sr.params@).len() ==> #[trigger] pair_views(sr.params@)[j].0
                    != amz_security_token_key(),
        },
{
    let ps = pair_views(sr.params@);
    match identity.session_token {
        Some(t) => {
            assert(ps[6] == (amz_security_token_key(), encode_utf8(t@)));
        },
        None => {
            assert(amz_security_token_key().len() == 20);
            assert forall|j: int| 0 <= j < ps.len() implies #[trigger] ps[j].0
                != amz_security_token_key() by {
                assert(ps[j].0.len() != 20);
            }
        },
    }
}


} // verus!
