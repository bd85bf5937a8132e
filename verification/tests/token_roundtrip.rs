//! Round trips of the bearer token and the exec-credential document.
use kashay::aws::{get_eks_token, GetEKSTokenInput};
use kashay::identity::{Identity, IdentitySource};
use kashay::token::{decode_token, encode_token, parse_exec_credential, serialize_k8s_token,
    K8sToken, K8sTokenStatus};

fn identity_with_token() -> Identity {
    Identity {
        access_key_id: "ASIAEXAMPLE".to_string(),
        secret_access_key: "wJalrXUtnFEMI/K7MDENG+bPxRfiCYEXAMPLEKEY".to_string(),
        session_token: Some("IQoJb3JpZ2luX2VjEXAMPLETOKEN".to_string()),
        expiration: Some(1704070800),
        source: IdentitySource::AssumedRole,
    }
}

fn static_identity() -> Identity {
    Identity {
        access_key_id: "AKIDEXAMPLE".to_string(),
        secret_access_key: "wJalrXUtnFEMI/K7MDENG+bPxRfiCYEXAMPLEKEY".to_string(),
        session_token: None,
        expiration: None,
        source: IdentitySource::Static,
    }
}

fn basic_input() -> GetEKSTokenInput {
    GetEKSTokenInput {
        region: "eu-west-2".to_string(),
        profile: None,
        cluster_name: "test-cluster".to_string(),
        session_name: Some("eks-creds-test-session".to_string()),
        role_arn: None,
    }
}

const TS_2024: u64 = 1704067200;

#[test]
fn bearer_token_round_trips_through_base64() {
    let url = "https://sts.eu-west-2.amazonaws.com/?Action=GetCallerIdentity&Version=2011-06-15";
    let token = encode_token(url);
    assert!(token.starts_with("k8s-aws-v1."));
    assert_ne!(token, format!("k8s-aws-v1.{}", url));
    assert_eq!(decode_token(&token).unwrap(), url);
}

#[test]
fn minted_token_decodes_to_a_caller_identity_url() {
    let doc = get_eks_token(&basic_input(), &static_identity(), TS_2024).unwrap();
    let parsed: serde_json::Value = serde_json::from_str(&doc).unwrap();
    let token = parsed["status"]["token"].as_str().unwrap();
    let url = decode_token(token).unwrap();
    assert!(url.starts_with("https://sts.eu-west-2.amazonaws.com/?Action=GetCallerIdentity"));
    assert!(url.contains("&Version=2011-06-15"));
    assert!(url.contains("&X-Amz-Algorithm=AWS4-HMAC-SHA256"));
    assert!(url.contains("&X-Amz-Credential=AKIDEXAMPLE%2F20240101%2Feu-west-2%2Feks-creds-test-session%2Faws4_request"));
    assert!(url.contains("&X-Amz-Date=20240101T000000Z"));
    assert!(url.contains("&X-Amz-Expires=60"));
    assert!(url.contains("&X-Amz-SignedHeaders=host%3Bx-k8s-aws-id"));
    assert!(url.contains("&X-Amz-Signature="));

    // The payload also decodes with the base64 crate itself.
    let stripped = token.strip_prefix("k8s-aws-v1.").unwrap();
    let raw = base64::Engine::decode(
        &base64::engine::general_purpose::URL_SAFE_NO_PAD,
        stripped,
    )
    .unwrap();
    assert_eq!(std::str::from_utf8(&raw).unwrap(), url);
}

#[test]
fn security_token_appears_exactly_for_assumed_roles() {
    let with_role = get_eks_token(&basic_input(), &identity_with_token(), TS_2024).unwrap();
    let parsed: serde_json::Value = serde_json::from_str(&with_role).unwrap();
    let url = decode_token(parsed["status"]["token"].as_str().unwrap()).unwrap();
    assert!(url.contains("&X-Amz-Security-Token=IQoJb3JpZ2luX2VjEXAMPLETOKEN"));

    let without = get_eks_token(&basic_input(), &static_identity(), TS_2024).unwrap();
    let parsed: serde_json::Value = serde_json::from_str(&without).unwrap();
    let url = decode_token(parsed["status"]["token"].as_str().unwrap()).unwrap();
    assert!(!url.contains("X-Amz-Security-Token"));
}

#[test]
fn role_credentials_expiring_inside_the_window_cap_the_expiration() {
    // Credentials lapse 30 seconds in: the document must not promise the
    // full 60-second window.
    let mut identity = identity_with_token();
    identity.expiration = Some(TS_2024 + 30);
    let doc = get_eks_token(&basic_input(), &identity, TS_2024).unwrap();
    let parsed: serde_json::Value = serde_json::from_str(&doc).unwrap();
    assert_eq!(parsed["status"]["expirationTimestamp"], "2024-01-01T00:00:30Z");

    // A static identity's expiration does not cap the window.
    let mut identity = static_identity();
    identity.expiration = Some(TS_2024 + 30);
    let doc = get_eks_token(&basic_input(), &identity, TS_2024).unwrap();
    let parsed: serde_json::Value = serde_json::from_str(&doc).unwrap();
    assert_eq!(parsed["status"]["expirationTimestamp"], "2024-01-01T00:01:00Z");
}

#[test]
fn assumed_role_expiry_does_not_leak_into_the_document() {
    // The identity's own credentials live until 01:00:00, but the token's
    // advertised life is the 60-second signing window.
    let doc = get_eks_token(&basic_input(), &identity_with_token(), TS_2024).unwrap();
    let parsed: serde_json::Value = serde_json::from_str(&doc).unwrap();
    assert_eq!(parsed["status"]["expirationTimestamp"], "2024-01-01T00:01:00Z");
}

#[test]
fn serializer_escapes_like_the_json_crate() {
    let token = K8sToken {
        kind: "Exec\"Cred\\ential\u{1f}".to_string(),
        api_version: "client.authentication.k8s.io/v1beta1".to_string(),
        status: K8sTokenStatus {
            expiration_timestamp: "2024-01-01T00:01:00Z".to_string(),
            token: "k8s-aws-v1.abc".to_string(),
        },
    };
    let doc = serialize_k8s_token(&token).unwrap();
    let parsed: serde_json::Value = serde_json::from_str(&doc).unwrap();
    assert_eq!(parsed["kind"].as_str().unwrap(), "Exec\"Cred\\ential\u{1f}");
    assert_eq!(parsed["status"]["token"].as_str().unwrap(), "k8s-aws-v1.abc");
}

#[test]
fn document_parser_inverts_the_serializer() {
    let doc = get_eks_token(&basic_input(), &static_identity(), TS_2024).unwrap();
    let (exp, tok) = parse_exec_credential(doc.as_bytes()).unwrap();
    assert_eq!(std::str::from_utf8(&exp).unwrap(), "2024-01-01T00:01:00Z");
    assert!(std::str::from_utf8(&tok).unwrap().starts_with("k8s-aws-v1."));
}

#[test]
fn document_parser_rejects_foreign_json() {
    assert!(parse_exec_credential(b"{}").is_none());
    assert!(parse_exec_credential(b"").is_none());
    let other = r#"{"kind":"Other","apiVersion":"v1","spec":{},"status":{}}"#;
    assert!(parse_exec_credential(other.as_bytes()).is_none());
}
