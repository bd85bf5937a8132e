//! Command-line parsing from plain argument lists.
//!
//! Arguments come as flag/value pairs: `--cluster-name`/`-c` and
//! `--region`/`-r` for the basic form, plus `--profile`/`-p`,
//! `--session-name`/`-s` and `--role-arn` for the full mint input. A later
//! occurrence of a flag overrides an earlier one; the cluster name is
//! required; the region defaults to `eu-west-2`.
use vstd::prelude::*;

use crate::aws::GetEKSTokenInput;

verus! {

/// What can be wrong with an argument list.
#[derive(Debug, Clone)]
pub enum ArgError {
    /// No `--cluster-name` was given.
    MissingClusterName,
    /// A flag stood last, with no value after it.
    MissingValue(String),
    /// A token that is no known flag stood where a flag belongs.
    UnknownArgument(String),
}

impl ArgError {
    /// A human-readable description.
    pub fn message(&self) -> String {
        match self {
            ArgError::MissingClusterName => String::from_str(
                "the required --cluster-name argument is missing",
            ),
            ArgError::MissingValue(flag) => String::from_str("the argument ").concat(
                flag.as_str(),
            ).concat(" expects a value"),
            ArgError::UnknownArgument(arg) => String::from_str("unexpected argument: ").concat(
                arg.as_str(),
            ),
        }
    }
}

/// The views of an argument list.
pub open spec fn arg_views(args: Seq<String>) -> Seq<Seq<char>> {
    args.map_values(|s: String| s@)
}

pub open spec fn is_cluster_flag(a: Seq<char>) -> bool {
    a == "--cluster-name"@ || a == "-c"@
}

pub open spec fn is_region_flag(a: Seq<char>) -> bool {
    a == "--region"@ || a == "-r"@
}

pub open spec fn is_profile_flag(a: Seq<char>) -> bool {
    a == "--profile"@ || a == "-p"@
}

pub open spec fn is_session_name_flag(a: Seq<char>) -> bool {
    a == "--session-name"@ || a == "-s"@
}

pub open spec fn is_role_arn_flag(a: Seq<char>) -> bool {
    a == "--role-arn"@
}

/// Scans flag/value pairs of the basic form; the result carries the last
/// cluster name and region seen, or nothing where the scan runs aground.
pub open spec fn scan_basic(
    args: Seq<Seq<char>>,
    cluster: Option<Seq<char>>,
    region: Option<Seq<char>>,
) -> Option<(Option<Seq<char>>, Option<Seq<char>>)>
    decreases args.len(),
{
    if args.len() == 0 {
        Some((cluster, region))
    } else if is_cluster_flag(args[0]) && args.len() >= 2 {
        scan_basic(args.skip(2), Some(args[1]), region)
    } else if is_region_flag(args[0]) && args.len() >= 2 {
        scan_basic(args.skip(2), cluster, Some(args[1]))
    } else {
        None
    }
}

/// Whether the basic scan fails on a known flag that lacks its value.
pub open spec fn basic_missing_value(args: Seq<Seq<char>>) -> bool
    decreases args.len(),
{
    if args.len() == 0 {
        false
    } else if is_cluster_flag(args[0]) || is_region_flag(args[0]) {
        if args.len() >= 2 {
            basic_missing_value(args.skip(2))
        } else {
            true
        }
    } else {
        false
    }
}

/// Parses the basic argument form. The cluster name must appear; the
/// region falls back to `eu-west-2`.
pub fn parse_args(args: &Vec<String>) -> (r: Result<crate::args::CliArgs, ArgError>)
    ensures
        ({
            let vs = arg_views(args@);
            match r {
                Ok(c) => scan_basic(vs, None, None) matches Some(p) && (p.0 matches Some(cl)
                    && c.cluster_name@ == cl) && c.region@ == (match p.1 {
                    Some(rg) => rg,
                    None => "eu-west-2"@,
                }),
                Err(e) => {
                    &&& (e is MissingValue <==> basic_missing_value(vs))
                    &&& (e is UnknownArgument <==> (scan_basic(vs, None, None) is None
                        && !basic_missing_value(vs)))
                    &&& (e is MissingClusterName <==> (scan_basic(vs, None, None) matches Some(p)
                        && p.0 is None))
                },
            }
        }),
{
    let ghost vs = arg_views(args@);
    let n = args.len();
    let mut i: usize = 0;
    let mut cluster: Option<String> = None;
    let mut region: Option<String> = None;
    proof {
        assert(vs.skip(0) =~= vs);
    }
    while i < n
        invariant
            i <= n,
            n == args@.len(),
            vs == arg_views(args@),
            scan_basic(vs.skip(i as int), opt_view(cluster), opt_view(region)) == scan_basic(
                vs,
                None,
                None,
            ),
            basic_missing_value(vs.skip(i as int)) == basic_missing_value(vs),
        decreases n - i,
    {
        let a = &args[i];
        let is_cluster = a.eq(&String::from_str("--cluster-name")) || a.eq(&String::from_str("-c"));
        let is_region = a.eq(&String::from_str("--region")) || a.eq(&String::from_str("-r"));
        if is_cluster || is_region {
            if i + 1 >= n {
                assert(basic_missing_value(vs.skip(i as int)));
                return Err(ArgError::MissingValue(a.clone()));
            }
            let value = args[i + 1].clone();
            if is_cluster {
                cluster = Some(value);
            } else {
                region = Some(value);
            }
            proof {
                assert(vs.skip(i as int).skip(2) =~= vs.skip(i + 2));
                assert(vs.skip(i as int)[0] == vs[i as int]);
                assert(vs.skip(i as int)[1] == vs[i + 1]);
            }
            i = i + 2;
        } else {
            assert(scan_basic(vs.skip(i as int), opt_view(cluster), opt_view(region)) is None);
            assert(!basic_missing_value(vs.skip(i as int)));
            return Err(ArgError::UnknownArgument(a.clone()));
        }
    }
    proof {
        assert(vs.skip(n as int) =~= Seq::<Seq<char>>::empty());
    }
    let cluster_name = match cluster {
        Some(c) => c,
        None => {
            return Err(ArgError::MissingClusterName);
        },
    };
    let region_name = match region {
        Some(rg) => rg,
        None => String::from_str("eu-west-2"),
    };
    Ok(CliArgs { cluster_name, region: region_name })
}

/// The view of an optional string.
pub open spec fn opt_view(o: Option<String>) -> Option<Seq<char>> {
    match o {
        Some(s) => Some(s@),
        None => None,
    }
}

/// Arguments of the basic form: the cluster, and where it lives.
#[derive(Debug, Clone)]
pub struct CliArgs {
    pub cluster_name: String,
    pub region: String,
}

/// Scans flag/value pairs of the full form: cluster name, region, profile,
/// session name and role ARN.
pub open spec fn scan_full(
    args: Seq<Seq<char>>,
    cluster: Option<Seq<char>>,
    region: Option<Seq<char>>,
    profile: Option<Seq<char>>,
    session_name: Option<Seq<char>>,
    role_arn: Option<Seq<char>>,
) -> Option<(Option<Seq<char>>, Option<Seq<char>>, Option<Seq<char>>, Option<Seq<char>>, Option<
    Seq<char>,
>)>
    decreases args.len(),
{
    if args.len() == 0 {
        Some((cluster, region, profile, session_name, role_arn))
    } else if args.len() < 2 {
        None
    } else if is_cluster_flag(args[0]) {
        scan_full(args.skip(2), Some(args[1]), region, profile, session_name, role_arn)
    } else if is_region_flag(args[0]) {
        scan_full(args.skip(2), cluster, Some(args[1]), profile, session_name, role_arn)
    } else if is_profile_flag(args[0]) {
        scan_full(args.skip(2), cluster, region, Some(args[1]), session_name, role_arn)
    } else if is_session_name_flag(args[0]) {
        scan_full(args.skip(2), cluster, region, profile, Some(args[1]), role_arn)
    } else if is_role_arn_flag(args[0]) {
        scan_full(args.skip(2), cluster, region, profile, session_name, Some(args[1]))
    } else {
        None
    }
}

/// Whether the full scan fails on a known flag that lacks its value.
pub open spec fn full_missing_value(args: Seq<Seq<char>>) -> bool
    decreases args.len(),
{
    if args.len() == 0 {
        false
    } else if is_cluster_flag(args[0]) || is_region_flag(args[0]) || is_profile_flag(args[0])
        || is_session_name_flag(args[0]) || is_role_arn_flag(args[0]) {
        if args.len() >= 2 {
            full_missing_value(args.skip(2))
        } else {
            true
        }
    } else {
        false
    }
}

/// Parses the full mint input from an argument list. The cluster name must
/// appear; the region falls back to `eu-west-2`; profile, session name and
/// role ARN stay absent unless given.
pub fn parse_input_args(args: &Vec<String>) -> (r: Result<GetEKSTokenInput, ArgError>)
    ensures
        ({
            let vs = arg_views(args@);
            match r {
                Ok(c) => scan_full(vs, None, None, None, None, None) matches Some(p) && (p.0
                    matches Some(cl) && c.cluster_name@ == cl) && c.region@ == (match p.1 {
                    Some(rg) => rg,
                    None => "eu-west-2"@,
                }) && opt_view(c.profile) == p.2 && opt_view(c.session_name) == p.3 && opt_view(
                    c.role_arn,
                ) == p.4,
                Err(e) => {
                    &&& (e is MissingValue <==> full_missing_value(vs))
                    &&& (e is UnknownArgument <==> (scan_full(vs, None, None, None, None, None)
                        is None && !full_missing_value(vs)))
                    &&& (e is MissingClusterName <==> (scan_full(vs, None, None, None, None, None)
                        matches Some(p) && p.0 is None))
                },
            }
        }),
{
    let ghost vs = arg_views(args@);
    let n = args.len();
    let mut i: usize = 0;
    let mut cluster: Option<String> = None;
    let mut region: Option<String> = None;
    let mut profile: Option<String> = None;
    let mut session_name: Option<String> = None;
    let mut role_arn: Option<String> = None;
    proof {
        assert(vs.skip(0) =~= vs);
    }
    while i < n
        invariant
            i <= n,
            n == args@.len(),
            vs == arg_views(args@),
            scan_full(
                vs.skip(i as int),
                opt_view(cluster),
                opt_view(region),
                opt_view(profile),
                opt_view(session_name),
                opt_view(role_arn),
            ) == scan_full(vs, None, None, None, None, None),
            full_missing_value(vs.skip(i as int)) == full_missing_value(vs),
        decreases n - i,
    {
        let a = &args[i];
        let is_cluster = a.eq(&String::from_str("--cluster-name")) || a.eq(&String::from_str("-c"));
        let is_region = a.eq(&String::from_str("--region")) || a.eq(&String::from_str("-r"));
        let is_profile = a.eq(&String::from_str("--profile")) || a.eq(&String::from_str("-p"));
        let is_session = a.eq(&String::from_str("--session-name")) || a.eq(&String::from_str("-s"));
        let is_role = a.eq(&String::from_str("--role-arn"));
        if is_cluster || is_region || is_profile || is_session || is_role {
            if i + 1 >= n {
                assert(full_missing_value(vs.skip(i as int)));
                return Err(ArgError::MissingValue(a.clone()));
            }
            let value = args[i + 1].clone();
            if is_cluster {
                cluster = Some(value);
            } else if is_region {
                region = Some(value);
            } else if is_profile {
                profile = Some(value);
            } else if is_session {
                session_name = Some(value);
            } else {
                role_arn = Some(value);
            }
            proof {
                assert(vs.skip(i as int).skip(2) =~= vs.skip(i + 2));
                assert(vs.skip(i as int)[0] == vs[i as int]);
                assert(vs.skip(i as int)[1] == vs[i + 1]);
            }
            i = i + 2;
        } else {
            assert(scan_full(
                vs.skip(i as int),
                opt_view(cluster),
                opt_view(region),
                opt_view(profile),
                opt_view(session_name),
                opt_view(role_arn),
            ) is None);
            assert(!full_missing_value(vs.skip(i as int)));
            return Err(ArgError::UnknownArgument(a.clone()));
        }
    }
    proof {
        assert(vs.skip(n as int) =~= Seq::<Seq<char>>::empty());
    }
    let cluster_name = match cluster {
        Some(c) => c,
        None => {
            return Err(ArgError::MissingClusterName);
        },
    };
    let region_name = match region {
        Some(rg) => rg,
        None => String::from_str("eu-west-2"),
    };
    Ok(
        GetEKSTokenInput {
            region: region_name,
            profile,
            cluster_name,
            session_name,
            role_arn,
        },
    )
}

} // verus!
