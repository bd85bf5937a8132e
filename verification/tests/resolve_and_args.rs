//! Identity resolution decisions and command-line parsing.
use kashay::args::{parse_args, parse_input_args, ArgError};
use kashay::aws::GetEKSTokenInput;
use kashay::error::{AssumeRoleField, GetEKSTokenError};
use kashay::identity::{
    effective_profile, effective_session_name, identity_from_assume_role, identity_from_provider,
    AssumeRoleResponse, IdentitySource, ProviderCredentials,
};

fn strings(args: &[&str]) -> Vec<String> {
    args.iter().map(|s| s.to_string()).collect()
}

#[test]
fn provider_credentials_become_a_static_identity() {
    let creds = ProviderCredentials {
        access_key_id: "AKIDEXAMPLE".to_string(),
        secret_access_key: "secret".to_string(),
        session_token: None,
        expiration: None,
    };
    let identity = identity_from_provider(Some(creds)).unwrap();
    assert_eq!(identity.access_key_id, "AKIDEXAMPLE");
    assert_eq!(identity.source, IdentitySource::Static);
    assert!(identity.session_token.is_none());
}

#[test]
fn missing_provider_is_its_own_error() {
    let err = identity_from_provider(None).unwrap_err();
    assert!(matches!(err, GetEKSTokenError::CredentialsProviderNone));
}

fn full_response() -> AssumeRoleResponse {
    AssumeRoleResponse {
        access_key_id: Some("ASIAEXAMPLE".to_string()),
        secret_access_key: Some("secret".to_string()),
        session_token: Some("token".to_string()),
        expiration: Some(1704070800),
    }
}

#[test]
fn complete_assume_role_response_becomes_an_identity() {
    let identity = identity_from_assume_role(full_response()).unwrap();
    assert_eq!(identity.source, IdentitySource::AssumedRole);
    assert_eq!(identity.session_token.as_deref(), Some("token"));
    assert_eq!(identity.expiration, Some(1704070800));
}

#[test]
fn each_missing_assume_role_field_is_reported_on_its_own() {
    let mut resp = full_response();
    resp.access_key_id = None;
    assert!(matches!(
        identity_from_assume_role(resp).unwrap_err(),
        GetEKSTokenError::AssumedRoleMissingField(AssumeRoleField::AccessKeyId)
    ));
    let mut resp = full_response();
    resp.secret_access_key = None;
    assert!(matches!(
        identity_from_assume_role(resp).unwrap_err(),
        GetEKSTokenError::AssumedRoleMissingField(AssumeRoleField::SecretAccessKey)
    ));
    let mut resp = full_response();
    resp.session_token = None;
    assert!(matches!(
        identity_from_assume_role(resp).unwrap_err(),
        GetEKSTokenError::AssumedRoleMissingField(AssumeRoleField::SessionToken)
    ));
    let mut resp = full_response();
    resp.expiration = None;
    assert!(matches!(
        identity_from_assume_role(resp).unwrap_err(),
        GetEKSTokenError::AssumedRoleMissingField(AssumeRoleField::Expiration)
    ));
}

#[test]
fn profile_resolution_prefers_the_explicit_one() {
    assert_eq!(
        effective_profile(Some("a".to_string()), Some("b".to_string())).unwrap(),
        "a"
    );
    assert_eq!(effective_profile(None, Some("b".to_string())).unwrap(), "b");
    assert!(matches!(
        effective_profile(None, None).unwrap_err(),
        GetEKSTokenError::ProfileNone
    ));
}

#[test]
fn session_name_defaults_to_sts() {
    assert_eq!(effective_session_name(None), "sts");
    assert_eq!(effective_session_name(Some("mine".to_string())), "mine");
}

#[test]
fn parse_args_reads_cluster_and_region() {
    let args = parse_args(&strings(&["--cluster-name", "demo", "--region", "us-east-1"])).unwrap();
    assert_eq!(args.cluster_name, "demo");
    assert_eq!(args.region, "us-east-1");
}

#[test]
fn parse_args_defaults_the_region() {
    let args = parse_args(&strings(&["-c", "demo"])).unwrap();
    assert_eq!(args.cluster_name, "demo");
    assert_eq!(args.region, "eu-west-2");
}

#[test]
fn parse_args_reports_what_is_wrong() {
    assert!(matches!(
        parse_args(&strings(&["-r", "eu-west-2"])).unwrap_err(),
        ArgError::MissingClusterName
    ));
    assert!(matches!(
        parse_args(&strings(&["--verbose"])).unwrap_err(),
        ArgError::UnknownArgument(_)
    ));
    assert!(matches!(
        parse_args(&strings(&["-c", "demo", "--region"])).unwrap_err(),
        ArgError::MissingValue(_)
    ));
}

#[test]
fn parse_input_args_reads_every_flag() {
    let input = parse_input_args(&strings(&[
        "--cluster-name",
        "demo",
        "-p",
        "work",
        "--session-name",
        "sess",
        "--role-arn",
        "arn:aws:iam::111111111111:role/demo",
    ]))
    .unwrap();
    assert_eq!(input.cluster_name, "demo");
    assert_eq!(input.region, "eu-west-2");
    assert_eq!(input.profile.as_deref(), Some("work"));
    assert_eq!(input.session_name.as_deref(), Some("sess"));
    assert_eq!(
        input.role_arn.as_deref(),
        Some("arn:aws:iam::111111111111:role/demo")
    );
}

#[test]
fn later_flags_override_earlier_ones() {
    let input = parse_input_args(&strings(&["-c", "one", "-c", "two"])).unwrap();
    assert_eq!(input.cluster_name, "two");
}

#[test]
fn cli_args_convert_to_the_mint_input() {
    let cli = kashay::cli::CliArgs {
        profile: Some("work".to_string()),
        region: "eu-west-2".to_string(),
        cluster_name: "demo".to_string(),
        session_name: None,
    };
    let input: GetEKSTokenInput = cli.into();
    assert_eq!(input.cluster_name, "demo");
    assert_eq!(input.profile.as_deref(), Some("work"));
    assert!(input.role_arn.is_none());
}

#[test]
fn error_messages_name_the_cause() {
    let msg = GetEKSTokenError::ProfileNone.message();
    assert!(msg.contains("AWS_PROFILE"));
    let msg = GetEKSTokenError::AssumedRoleMissingField(AssumeRoleField::SessionToken).message();
    assert!(msg.contains("session token"));
    let msg = ArgError::UnknownArgument("--verbose".to_string()).message();
    assert!(msg.contains("--verbose"));
}
