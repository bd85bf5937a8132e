//! The command-line argument shape, and its conversion into the mint input.
use vstd::prelude::*;

use crate::aws::GetEKSTokenInput;

verus! {

/// Arguments as the command line carries them.
#[derive(Debug, Clone)]
pub struct CliArgs {
    pub profile: Option<String>,
    pub region: String,
    pub cluster_name: String,
    pub session_name: Option<String>,
}

impl From<CliArgs> for GetEKSTokenInput {
    /// Carries every field over; plain arguments never name a role to
    /// assume.
    fn from(val: CliArgs) -> (r: GetEKSTokenInput) {
        GetEKSTokenInput {
            profile: val.profile,
            region: val.region,
            cluster_name: val.cluster_name,
            session_name: val.session_name,
            role_arn: None,
        }
    }
}

impl vstd::std_specs::convert::FromSpecImpl<CliArgs> for GetEKSTokenInput {
    open spec fn obeys_from_spec() -> bool {
        true
    }

    open spec fn from_spec(val: CliArgs) -> GetEKSTokenInput {
        GetEKSTokenInput {
            profile: val.profile,
            region: val.region,
            cluster_name: val.cluster_name,
            session_name: val.session_name,
            role_arn: None,
        }
    }
}

} // verus!
