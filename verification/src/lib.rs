//! A library that mints short-lived Kubernetes exec-credential bearer tokens
//! for authenticating against EKS clusters as an AWS IAM identity.
//!
//! The pipeline: resolve an AWS identity (static credentials or an assumed
//! role), build and SigV4-presign an STS `GetCallerIdentity` request scoped to
//! a cluster, encode the signed URL as a `k8s-aws-v1.` bearer token, and wrap
//! it in an `ExecCredential` JSON document. An optional cache gate checks a
//! previously stored document's expiration before minting anew.
pub mod args;
pub mod aws;
pub mod b64;
pub mod bytesutil;
pub mod cache;
pub mod cli;
pub mod error;
pub mod identity;
pub mod query;
pub mod rfc3339;
pub mod sigv4;
pub mod strutil;
pub mod token;

