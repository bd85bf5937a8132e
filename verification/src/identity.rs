//! Resolved AWS identities and the validation half of identity resolution.
//!
//! The network half — the ambient credential-provider chain and the STS
//! AssumeRole call — lives outside the library; callers hand its plain
//! results to the functions here, which decide between an identity and the
//! exact error.
use vstd::prelude::*;

use crate::error::AssumeRoleField;
use crate::error::GetEKSTokenError;

verus! {

/// Where an identity came from.
#[derive(Debug, Clone, Copy, PartialEq, Eq, Structural)]
pub enum IdentitySource {
    Static,
    AssumedRole,
}

/// A resolved AWS identity. Assumed-role identities always carry a session
/// token and an expiration; static ones may carry either.
#[derive(Debug, Clone)]
pub struct Identity {
    pub access_key_id: String,
    pub secret_access_key: String,
    pub session_token: Option<String>,
    /// Seconds since the Unix epoch, when the credentials themselves lapse.
    pub expiration: Option<u64>,
    pub source: IdentitySource,
}

/// Credentials as the ambient provider chain hands them out.
#[derive(Debug, Clone)]
pub struct ProviderCredentials {
    pub access_key_id: String,
    pub secret_access_key: String,
    pub session_token: Option<String>,
    pub expiration: Option<u64>,
}

/// An AssumeRole response as it arrives: every field still unconfirmed.
#[derive(Debug, Clone)]
pub struct AssumeRoleResponse {
    pub access_key_id: Option<String>,
    pub secret_access_key: Option<String>,
    pub session_token: Option<String>,
    pub expiration: Option<u64>,
}

/// The profile to resolve credentials under: an explicit one wins, the
/// ambient environment's is the fallback, and with neither the mint stops.
pub fn effective_profile(profile: Option<String>, env_profile: Option<String>) -> (r: Result<
    String,
    GetEKSTokenError,
>)
    ensures
        match r {
            Ok(p) => (profile matches Some(x) && p == x) || (profile is None && (env_profile
                matches Some(x) && p == x)),
            Err(e) => profile is None && env_profile is None && e is ProfileNone,
        },
{
    match profile {
        Some(p) => Ok(p),
        None => match env_profile {
            Some(p) => Ok(p),
            None => Err(GetEKSTokenError::ProfileNone),
        },
    }
}

/// Builds the static identity from what the provider chain yielded, or
/// reports that the chain yielded nothing.
pub fn identity_from_provider(creds: Option<ProviderCredentials>) -> (r: Result<
    Identity,
    GetEKSTokenError,
>)
    ensures
        match r {
            Ok(i) => creds matches Some(c) && i == (Identity {
                access_key_id: c.access_key_id,
                secret_access_key: c.secret_access_key,
                session_token: c.session_token,
                expiration: c.expiration,
                source: IdentitySource::Static,
            }),
            Err(e) => creds is None && e is CredentialsProviderNone,
        },
{
    match creds {
        Some(c) => Ok(
            Identity {
                access_key_id: c.access_key_id,
                secret_access_key: c.secret_access_key,
                session_token: c.session_token,
                expiration: c.expiration,
                source: IdentitySource::Static,
            },
        ),
        None => Err(GetEKSTokenError::CredentialsProviderNone),
    }
}

/// Builds the assumed-role identity, insisting on every field of the
/// response; the first absent field, in the order access key id, secret
/// access key, session token, expiration, is reported on its own.
pub fn identity_from_assume_role(resp: AssumeRoleResponse) -> (r: Result<
    Identity,
    GetEKSTokenError,
>)
    ensures
        match r {
            Ok(i) => {
                &&& resp.access_key_id matches Some(a) && i.access_key_id == a
                &&& resp.secret_access_key matches Some(s) && i.secret_access_key == s
                &&& resp.session_token matches Some(t) && i.session_token == Some(t)
                &&& resp.expiration matches Some(x) && i.expiration == Some(x)
                &&& i.source == IdentitySource::AssumedRole
            },
            Err(e) => {
                ||| resp.access_key_id is None && e == GetEKSTokenError::AssumedRoleMissingField(
                    AssumeRoleField::AccessKeyId,
                )
                ||| resp.access_key_id is Some && resp.secret_access_key is None && e
                    == GetEKSTokenError::AssumedRoleMissingField(AssumeRoleField::SecretAccessKey)
                ||| resp.access_key_id is Some && resp.secret_access_key is Some
                    && resp.session_token is None && e == GetEKSTokenError::AssumedRoleMissingField(
                    AssumeRoleField::SessionToken,
                )
                ||| resp.access_key_id is Some && resp.secret_access_key is Some
                    && resp.session_token is Some && resp.expiration is None && e
                    == GetEKSTokenError::AssumedRoleMissingField(AssumeRoleField::Expiration)
            },
        },
{
    let access_key_id = match resp.access_key_id {
        Some(a) => a,
        None => {
            return Err(
                GetEKSTokenError::AssumedRoleMissingField(AssumeRoleField::AccessKeyId),
            );
        },
    };
    let secret_access_key = match resp.secret_access_key {
        Some(s) => s,
        None => {
            return Err(
                GetEKSTokenError::AssumedRoleMissingField(AssumeRoleField::SecretAccessKey),
            );
        },
    };
    let session_token = match resp.session_token {
        Some(t) => t,
        None => {
            return Err(
                GetEKSTokenError::AssumedRoleMissingField(AssumeRoleField::SessionToken),
            );
        },
    };
    let expiration = match resp.expiration {
        Some(x) => x,
        None => {
            return Err(
                GetEKSTokenError::AssumedRoleMissingField(AssumeRoleField::Expiration),
            );
        },
    };
    Ok(
        Identity {
            access_key_id,
            secret_access_key,
            session_token: Some(session_token),
            expiration: Some(expiration),
            source: IdentitySource::AssumedRole,
        },
    )
}

/// The expiration a minted document may advertise: the end of the signing
/// window, capped for assumed-role identities by the STS-issued credential
/// expiration — the document must never promise more life than either the
/// signature or the credentials have.
pub open spec fn advertised_expiration(identity: Identity, window_end: int) -> int {
    match identity.expiration {
        Some(x) => if identity.source == IdentitySource::AssumedRole && x < window_end {
            x as int
        } else {
            window_end
        },
        None => window_end,
    }
}

/// Computes the advertised expiration.
pub fn advertised_expiration_e(identity: &Identity, window_end: u64) -> (r: u64)
    ensures
        r == advertised_expiration(*identity, window_end as int),
        r <= window_end,
{
    match identity.expiration {
        Some(x) => {
            if identity.source == IdentitySource::AssumedRole && x < window_end {
                x
            } else {
                window_end
            }
        },
        None => window_end,
    }
}

/// The session name to sign under when none was given.
pub fn default_session_name() -> (r: String)
    ensures
        r@ == "sts"@,
{
    String::from_str("sts")
}

/// The session name that applies: the given one, or the default.
pub fn effective_session_name(session_name: Option<String>) -> (r: String)
    ensures
        match session_name {
            Some(s) => r == s,
            None => r@ == "sts"@,
        },
{
    match session_name {
        Some(s) => s,
        None => default_session_name(),
    }
}

} // verus!
