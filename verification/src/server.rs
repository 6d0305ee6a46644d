//! Server-side decisions: which file a request stream is answered from.
//!
//! The accept loops that feed these functions live outside the library;
//! they hand over the served root and the request's target path as plain
//! bytes and perform the one filesystem read the plan asks for.

pub mod certs_configuration;
pub mod env_parser;

use vstd::prelude::*;
use vstd::string::StringExecFns;

use crate::resolve::{resolve, spec_resolve, ResolveError};

verus! {

/// What the handler is to do for one request: read a candidate file and
/// stream it back, or answer not-found outright.
pub enum RequestPlan {
    /// The resolved candidate path to read; a failed read still collapses
    /// to not-found.
    ReadFile(Vec<u8>),
    /// The path was refused by the resolver.
    NotFound,
}

/// Plans the answer to one request: the target path is resolved against
/// the served root, a refusal of any kind collapsing to not-found. Whether
/// the candidate file exists is decided by the read that follows.
pub fn plan_request(root: &[u8], target_path: &[u8]) -> (p: RequestPlan)
    ensures
        match p {
            RequestPlan::ReadFile(f) => spec_resolve(root@, target_path@) == Ok::<
                Seq<u8>,
                ResolveError,
            >(f@),
            RequestPlan::NotFound => spec_resolve(root@, target_path@) is Err,
        },
{
    match resolve(root, target_path) {
        Ok(candidate) => RequestPlan::ReadFile(candidate),
        Err(_) => RequestPlan::NotFound,
    }
}

/// Whether general logging is set up for a testcase: every scenario logs
/// except `optimize`, whose measurements logging would distort.
pub fn logging_enabled(testcase: &String) -> (r: bool)
    ensures
        r == (testcase@ != "optimize"@),
{
    !(*testcase == String::from_str("optimize"))
}

} // verus!
