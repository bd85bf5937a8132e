//! End-to-end tests of the minting pipeline with the real signing and
//! encoding crates linked.
use kashay::aws::{get_eks_token, GetEKSTokenInput};
use kashay::error::GetEKSTokenError;
use kashay::identity::{Identity, IdentitySource};

fn static_identity() -> Identity {
    Identity {
        access_key_id: "AKIDEXAMPLE".to_string(),
        secret_access_key: "wJalrXUtnFEMI/K7MDENG+bPxRfiCYEXAMPLEKEY".to_string(),
        session_token: None,
        expiration: None,
        source: IdentitySource::Static,
    }
}

fn basic_input() -> GetEKSTokenInput {
    GetEKSTokenInput {
        region: "eu-west-2".to_string(),
        profile: Some("test-profile".to_string()),
        cluster_name: "test-cluster".to_string(),
        session_name: None,
        role_arn: None,
    }
}

/// Fixed timestamp 2024-01-01T00:00:00Z.
const TS_2024: u64 = 1704067200;

#[test]
fn mint_with_fixed_timestamp_sets_expiration_one_minute_later() {
    let doc = get_eks_token(&basic_input(), &static_identity(), TS_2024).unwrap();
    let parsed: serde_json::Value = serde_json::from_str(&doc).unwrap();
    assert_eq!(parsed["kind"], "ExecCredential");
    assert_eq!(parsed["apiVersion"], "client.authentication.k8s.io/v1beta1");
    assert!(parsed["spec"].as_object().unwrap().is_empty());
    assert_eq!(parsed["status"]["expirationTimestamp"], "2024-01-01T00:01:00Z");
    let token = parsed["status"]["token"].as_str().unwrap();
    assert!(token.starts_with("k8s-aws-v1."));
}

#[test]
fn minting_is_deterministic() {
    let a = get_eks_token(&basic_input(), &static_identity(), TS_2024).unwrap();
    let b = get_eks_token(&basic_input(), &static_identity(), TS_2024).unwrap();
    assert_eq!(a, b);
}

#[test]
fn invalid_region_is_rejected_before_signing() {
    let mut input = basic_input();
    input.region = "bad region!".to_string();
    let err = get_eks_token(&input, &static_identity(), TS_2024).unwrap_err();
    assert!(matches!(err, GetEKSTokenError::FailedToBuildHttpRequest(_)));
}

/// The library applies the signing parameters to the URL itself; this pins
/// that application against the signing crate's own, end to end.
#[test]
fn signed_url_matches_the_signing_crates_own_application() {
    let input = basic_input();
    let identity = static_identity();
    let ctx = kashay::sigv4::SigningContext {
        region: input.region.clone(),
        cluster_name: input.cluster_name.clone(),
        session_name: "sts".to_string(),
        request_timestamp: TS_2024,
    };
    let signed = kashay::sigv4::sign(&identity, &ctx).unwrap();

    let sdk_identity: aws_smithy_runtime_api::client::identity::Identity =
        aws_credential_types::Credentials::new(
            identity.access_key_id.clone(),
            identity.secret_access_key.clone(),
            identity.session_token.clone(),
            None,
            "kashay",
        )
        .into();
    let mut settings = aws_sigv4::http_request::SigningSettings::default();
    settings.signature_location = aws_sigv4::http_request::SignatureLocation::QueryParams;
    settings.expires_in = Some(std::time::Duration::from_secs(60));
    let params: aws_sigv4::http_request::SigningParams =
        aws_sigv4::sign::v4::SigningParams::builder()
            .identity(&sdk_identity)
            .region(&input.region)
            .name("sts")
            .time(std::time::UNIX_EPOCH + std::time::Duration::from_secs(TS_2024))
            .settings(settings)
            .build()
            .unwrap()
            .into();
    let url = format!(
        "https://sts.{}.amazonaws.com/?Action=GetCallerIdentity&Version=2011-06-15",
        input.region
    );
    let mut request = http::Request::builder()
        .uri(&url)
        .header("x-k8s-aws-id", &input.cluster_name)
        .body(())
        .unwrap();
    let signable = aws_sigv4::http_request::SignableRequest::new(
        "GET",
        url.clone(),
        request
            .headers()
            .iter()
            .map(|(name, value)| (name.as_str(), value.to_str().unwrap())),
        aws_sigv4::http_request::SignableBody::Bytes(&[]),
    )
    .unwrap();
    let (instructions, _signature) = aws_sigv4::http_request::sign(signable, &params)
        .unwrap()
        .into_parts();
    instructions.apply_to_request_http1x(&mut request);
    assert_eq!(signed.uri, request.uri().to_string());
}
