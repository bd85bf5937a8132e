//! The token-minting pipeline: from a validated input, a resolved identity
//! and a timestamp to the serialized exec-credential document.
use vstd::prelude::*;

use crate::bytesutil::all_ascii;
use crate::error::GetEKSTokenError;
use crate::identity::advertised_expiration;
use crate::identity::default_session_name;
use crate::identity::Identity;
use crate::rfc3339::rfc3339_bytes;
use crate::rfc3339::MAX_TIMESTAMP;
use crate::sigv4::sign;
use crate::sigv4::signed_url_bytes;
use crate::sigv4::signing_params_shape;
use crate::sigv4::sigv4_presign_ok;
use crate::sigv4::sigv4_query_params;
use crate::sigv4::token_bytes;
use crate::sigv4::unsigned_url_bytes;
use crate::sigv4::valid_region_bytes;
use crate::sigv4::SigningContext;
use crate::sigv4::EXPIRY_SECONDS;
use crate::token::api_version_bytes;
use crate::token::bearer_bytes;
use crate::token::canonical_doc;
use crate::token::encode;
use crate::token::json_doc;
use crate::token::kind_bytes;
use crate::token::serialize_k8s_token;
use vstd::utf8::encode_utf8;

verus! {

/// The validated input of a mint: which cluster, under which region,
/// profile and session name, and whether a role is assumed first.
#[derive(Debug, Clone)]
pub struct GetEKSTokenInput {
    pub region: String,
    pub profile: Option<String>,
    pub cluster_name: String,
    pub session_name: Option<String>,
    pub role_arn: Option<String>,
}

/// The session name that will be signed under.
pub open spec fn session_name_of(session_name: Option<String>) -> Seq<char> {
    match session_name {
        Some(s) => s@,
        None => "sts"@,
    }
}

/// The signing query parameters of a mint.
pub open spec fn minted_params(input: GetEKSTokenInput, identity: Identity, ts: int) -> Seq<
    (Seq<u8>, Seq<u8>),
> {
    sigv4_query_params(
        encode_utf8(identity.access_key_id@),
        encode_utf8(identity.secret_access_key@),
        token_bytes(identity.session_token),
        encode_utf8(input.region@),
        encode_utf8(session_name_of(input.session_name)),
        encode_utf8(input.cluster_name@),
        unsigned_url_bytes(encode_utf8(input.region@)),
        ts,
        EXPIRY_SECONDS as int,
    )
}

/// The signed URL of a mint.
pub open spec fn minted_url(input: GetEKSTokenInput, identity: Identity, ts: int) -> Seq<u8> {
    signed_url_bytes(encode_utf8(input.region@), minted_params(input, identity, ts))
}

/// The expiration a mint advertises: the end of the signing window, capped
/// by an assumed-role identity's credential expiration.
pub open spec fn minted_expiration(identity: Identity, ts: int) -> int {
    advertised_expiration(identity, ts + EXPIRY_SECONDS)
}

/// The whole document of a mint: fixed kind and apiVersion, the advertised
/// expiration, and the bearer token encoding the signed URL.
pub open spec fn minted_document(input: GetEKSTokenInput, identity: Identity, ts: int) -> Seq<
    u8,
> {
    json_doc(
        kind_bytes(),
        api_version_bytes(),
        rfc3339_bytes(minted_expiration(identity, ts)),
        bearer_bytes(minted_url(input, identity, ts)),
    )
}

/// Whether the mint succeeds: the region must form the STS host name, and
/// the signing call itself must go through.
pub open spec fn minted_ok(input: GetEKSTokenInput, identity: Identity, ts: int) -> bool {
    &&& valid_region_bytes(encode_utf8(input.region@))
    &&& sigv4_presign_ok(
        encode_utf8(identity.access_key_id@),
        encode_utf8(identity.secret_access_key@),
        token_bytes(identity.session_token),
        encode_utf8(input.region@),
        encode_utf8(session_name_of(input.session_name)),
        encode_utf8(input.cluster_name@),
        unsigned_url_bytes(encode_utf8(input.region@)),
        ts,
        EXPIRY_SECONDS as int,
    )
}

/// The minted URL keeps the unsigned STS URL — scheme, host with the
/// region, and the `Action=GetCallerIdentity` query — as its prefix, and is
/// ASCII throughout.
pub proof fn lemma_minted_url_shape(input: GetEKSTokenInput, identity: Identity, ts: int)
    requires
        valid_region_bytes(encode_utf8(input.region@)),
    ensures
        unsigned_url_bytes(encode_utf8(input.region@)).is_prefix_of(
            minted_url(input, identity, ts),
        ),
        all_ascii(minted_url(input, identity, ts)),
{
    let region = encode_utf8(input.region@);
    let unsigned = unsigned_url_bytes(region);
    let url = minted_url(input, identity, ts);
    assert(unsigned.is_prefix_of(url)) by {
        assert(url.subrange(0, unsigned.len() as int) =~= unsigned);
    }
    crate::sigv4::lemma_unsigned_url_ascii(region);
    crate::query::lemma_query_params_suffix_ascii(minted_params(input, identity, ts));
}

/// Mints the serialized exec-credential document for an already resolved
/// identity, succeeding exactly when the signing call does. The returned
/// string is exactly the minted document: its expiration is the signing
/// timestamp plus the expiry window — capped by an assumed-role identity's
/// credential expiration, which it must never outlive — and its token
/// carries the presigned URL with exactly the signing query parameters. The
/// document is also canonical, so the cache gate returns it unchanged until
/// that expiration passes.
#[verifier::rlimit(100)]
pub fn get_eks_token(input: &GetEKSTokenInput, identity: &Identity, request_timestamp: u64) -> (r:
    Result<String, GetEKSTokenError>)
    requires
        request_timestamp + EXPIRY_SECONDS <= MAX_TIMESTAMP,
    ensures
        r is Ok <==> minted_ok(*input, *identity, request_timestamp as int),
        r matches Ok(s) ==> encode_utf8(s@) == minted_document(
            *input,
            *identity,
            request_timestamp as int,
        ),
        r matches Ok(s) ==> encode_utf8(s@) == canonical_doc(
            rfc3339_bytes(minted_expiration(*identity, request_timestamp as int)),
            bearer_bytes(minted_url(*input, *identity, request_timestamp as int)),
        ),
        r is Ok ==> signing_params_shape(
            minted_params(*input, *identity, request_timestamp as int),
            encode_utf8(identity.access_key_id@),
            token_bytes(identity.session_token),
            encode_utf8(input.region@),
            encode_utf8(session_name_of(input.session_name)),
            request_timestamp as int,
            EXPIRY_SECONDS as int,
        ),
        !valid_region_bytes(encode_utf8(input.region@)) ==> (r matches Err(e) && e
            is FailedToBuildHttpRequest),
        r matches Err(e) ==> (e is FailedToBuildHttpRequest || e is FailedToBuildSigningParams || e
            is FailedToCreateSignableRequest || e is FailedToSignHttpRequest),
{
    let session_name = match &input.session_name {
        Some(s) => s.clone(),
        None => default_session_name(),
    };
    let ctx = SigningContext {
        region: input.region.clone(),
        cluster_name: input.cluster_name.clone(),
        session_name,
        request_timestamp,
    };
    let signed = match sign(identity, &ctx) {
        Ok(sr) => sr,
        Err(e) => {
            return Err(e);
        },
    };
    let token = encode(&signed, identity, request_timestamp);
    proof {
        crate::rfc3339::lemma_rfc3339_byte_range(
            minted_expiration(*identity, request_timestamp as int),
        );
        assert(all_ascii(kind_bytes()));
        assert(all_ascii(api_version_bytes()));
        crate::token::lemma_json_doc_ascii(
            encode_utf8(token.kind@),
            encode_utf8(token.api_version@),
            encode_utf8(token.status.expiration_timestamp@),
            encode_utf8(token.status.token@),
        );
        crate::token::lemma_canonical_doc(
            encode_utf8(token.status.expiration_timestamp@),
            encode_utf8(token.status.token@),
        );
    }
    match serialize_k8s_token(&token) {
        Ok(s) => Ok(s),
        Err(e) => {
            proof {
                assert(false);
            }
            Err(e)
        },
    }
}

} // verus!
