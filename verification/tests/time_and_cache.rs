//! The RFC 3339 renderer and parser, and the cache gate built on them.
use kashay::aws::{get_eks_token, GetEKSTokenInput};
use kashay::cache::{cache_key, cache_lookup};
use kashay::identity::{Identity, IdentitySource};
use kashay::rfc3339::{format_rfc3339, parse_rfc3339};

fn fmt(ts: u64) -> String {
    String::from_utf8(format_rfc3339(ts)).unwrap()
}

#[test]
fn formats_known_timestamps() {
    assert_eq!(fmt(0), "1970-01-01T00:00:00Z");
    assert_eq!(fmt(1704067200), "2024-01-01T00:00:00Z");
    assert_eq!(fmt(1704067260), "2024-01-01T00:01:00Z");
    // 2024 is a leap year.
    assert_eq!(fmt(1709164800), "2024-02-29T00:00:00Z");
    assert_eq!(fmt(1709251199), "2024-02-29T23:59:59Z");
    assert_eq!(fmt(951782400), "2000-02-29T00:00:00Z");
    // 1900 was not.
    assert_eq!(fmt(4107542399), "2100-02-28T23:59:59Z");
    assert_eq!(fmt(1735689599), "2024-12-31T23:59:59Z");
}

#[test]
fn parsing_inverts_formatting() {
    for ts in [
        0u64,
        59,
        86399,
        86400,
        951782400,
        1704067200,
        1704067260,
        1709164800,
        4107542399,
        250000000000,
    ] {
        assert_eq!(parse_rfc3339(&format_rfc3339(ts)), Some(ts));
    }
}

#[test]
fn parser_rejects_non_canonical_forms() {
    assert_eq!(parse_rfc3339(b""), None);
    assert_eq!(parse_rfc3339(b"2024-01-01"), None);
    assert_eq!(parse_rfc3339(b"2024-13-01T00:00:00Z"), None);
    assert_eq!(parse_rfc3339(b"2024-02-30T00:00:00Z"), None);
    assert_eq!(parse_rfc3339(b"2023-02-29T00:00:00Z"), None);
    assert_eq!(parse_rfc3339(b"2024-01-01T24:00:00Z"), None);
    assert_eq!(parse_rfc3339(b"2024-01-01 00:00:00Z"), None);
    assert_eq!(parse_rfc3339(b"2024-01-01T00:00:00+"), None);
    assert_eq!(parse_rfc3339(b"1969-12-31T23:59:59Z"), None);
    assert_eq!(parse_rfc3339(b"9999-12-31T23:59:59Z"), None);
}

fn static_identity() -> Identity {
    Identity {
        access_key_id: "AKIDEXAMPLE".to_string(),
        secret_access_key: "wJalrXUtnFEMI/K7MDENG+bPxRfiCYEXAMPLEKEY".to_string(),
        session_token: None,
        expiration: None,
        source: IdentitySource::Static,
    }
}

fn basic_input() -> GetEKSTokenInput {
    GetEKSTokenInput {
        region: "eu-west-2".to_string(),
        profile: None,
        cluster_name: "test-cluster".to_string(),
        session_name: None,
        role_arn: None,
    }
}

const TS_2024: u64 = 1704067200;

#[test]
fn cache_returns_fresh_entries_unchanged() {
    let doc = get_eks_token(&basic_input(), &static_identity(), TS_2024).unwrap();
    // The document expires at TS_2024 + 60.
    let hit = cache_lookup(Some(&doc), TS_2024 + 30);
    assert_eq!(hit, Some(doc));
}

#[test]
fn cache_misses_on_expired_entries() {
    let doc = get_eks_token(&basic_input(), &static_identity(), TS_2024).unwrap();
    assert_eq!(cache_lookup(Some(&doc), TS_2024 + 60), None);
    assert_eq!(cache_lookup(Some(&doc), TS_2024 + 3600), None);
}

#[test]
fn cache_misses_on_garbage_and_absence() {
    assert_eq!(cache_lookup(None, TS_2024), None);
    let garbage = "not json at all".to_string();
    assert_eq!(cache_lookup(Some(&garbage), 0), None);
    let foreign = r#"{"kind":"Other"}"#.to_string();
    assert_eq!(cache_lookup(Some(&foreign), 0), None);
}

#[test]
fn cache_keys_separate_roles() {
    let role_a = "arn:aws:iam::111111111111:role/demo".to_string();
    let role_b = "arn:aws:iam::222222222222:role/demo".to_string();
    let plain = cache_key("test-cluster", None);
    let with_a = cache_key("test-cluster", Some(&role_a));
    let with_b = cache_key("test-cluster", Some(&role_b));
    assert_eq!(plain, "test-cluster");
    assert_eq!(with_a, "test-cluster|arn:aws:iam::111111111111:role/demo");
    assert_ne!(with_a, with_b);
}
