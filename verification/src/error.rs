//! Error taxonomy of the token-minting pipeline.
//!
//! Configuration and credential-resolution errors identify exactly what was
//! missing; signing and serialization errors carry the underlying cause as
//! text. None of them is retryable within the pipeline.
use vstd::prelude::*;

verus! {

/// The required fields of an assume-role response; each absence is its own
/// fatal error so operators can diagnose partial STS responses.
#[derive(Debug, Clone, Copy, PartialEq, Eq, Structural)]
pub enum AssumeRoleField {
    AccessKeyId,
    SecretAccessKey,
    SessionToken,
    Expiration,
}

/// Everything that can end a mint early.
#[derive(Debug, Clone)]
pub enum GetEKSTokenError {
    /// No profile was given and the ambient environment names none.
    ProfileNone,
    /// The shared configuration carries no credentials provider.
    CredentialsProviderNone,
    /// The credentials provider failed to yield credentials.
    CredentialsProviderError(String),
    /// An assume-role response lacked a required field.
    AssumedRoleMissingField(AssumeRoleField),
    /// The SigV4 signing parameters could not be built.
    FailedToBuildSigningParams(String),
    /// The request URL is malformed.
    FailedToBuildHttpRequest(String),
    /// The signable request could not be created.
    FailedToCreateSignableRequest(String),
    /// The SigV4 signature computation failed.
    FailedToSignHttpRequest(String),
    /// The exec-credential document could not be serialized.
    FailedToSerializeToken(String),
}

impl GetEKSTokenError {
    /// A human-readable description, written to standard error by callers.
    pub fn message(&self) -> String {
        match self {
            GetEKSTokenError::ProfileNone => String::from_str(
                "AWS Profile is None. Please either specify the AWS profile via the --profile switch or set the AWS_PROFILE environment variable.",
            ),
            GetEKSTokenError::CredentialsProviderNone => String::from_str(
                "Credentials provider was None when trying to get credentials from the AWS shared config",
            ),
            GetEKSTokenError::CredentialsProviderError(source) => String::from_str(
                "Unable to get credentials from the AWS credentials provider: ",
            ).concat(source.as_str()),
            GetEKSTokenError::AssumedRoleMissingField(field) => {
                let name = match field {
                    AssumeRoleField::AccessKeyId => "access key id",
                    AssumeRoleField::SecretAccessKey => "secret access key",
                    AssumeRoleField::SessionToken => "session token",
                    AssumeRoleField::Expiration => "expiration",
                };
                String::from_str("The assume role response is missing the ").concat(name).concat(
                    " field",
                )
            },
            GetEKSTokenError::FailedToBuildSigningParams(source) => String::from_str(
                "Failed to build the signing params for signing the authenticating with EKS: ",
            ).concat(source.as_str()),
            GetEKSTokenError::FailedToBuildHttpRequest(source) => String::from_str(
                "Failed to build HTTP request for authenticating to EKS: ",
            ).concat(source.as_str()),
            GetEKSTokenError::FailedToCreateSignableRequest(source) => String::from_str(
                "Failed to create signable request to sign EKS authentication request: ",
            ).concat(source.as_str()),
            GetEKSTokenError::FailedToSignHttpRequest(source) => String::from_str(
                "Failed to sign HTTP request for authenticating against EKS cluster: ",
            ).concat(source.as_str()),
            GetEKSTokenError::FailedToSerializeToken(source) => String::from_str(
                "Failed to serialize EKS authentication token: ",
            ).concat(source.as_str()),
        }
    }
}

} // verus!
