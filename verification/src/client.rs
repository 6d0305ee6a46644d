//! Client-side decisions: how requests map onto connections and downloads.
//!
//! The connection handling itself lives outside the library; it asks here
//! whether all requests share one connection, and where a downloaded file
//! is to be written.

pub mod env_parser;

use vstd::prelude::*;

use crate::resolve::SLASH;
use crate::testcase::Testcase;

verus! {

/// Whether every request is sent over one shared connection: so under
/// `transportparameter` and `transfer`; every other testcase opens one
/// connection per request.
pub fn multiplexes_requests(tc: Testcase) -> (r: bool)
    ensures
        r == (tc == Testcase::Transportparameter || tc == Testcase::Transfer),
{
    match tc {
        Testcase::Transportparameter => true,
        Testcase::Transfer => true,
        _ => false,
    }
}

/// Where a downloaded file is written: the requested path, which always
/// starts with a separator, placed under the downloads directory. Taking
/// the leading separator off the path and joining with one separator comes
/// to the same bytes as appending the path whole.
pub fn download_target(downloads: &[u8], path: &[u8]) -> (r: Vec<u8>)
    requires
        path@.len() > 0,
        path@[0] == SLASH,
    ensures
        r@ == downloads@ + path@,
{
    let mut out = vstd::slice::slice_to_vec(downloads);
    out.extend_from_slice(path);
    out
}

} // verus!
