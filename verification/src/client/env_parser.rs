//! The client's validated run configuration.
//!
//! The environment is read outside the library; the raw values are handed
//! in here, where the testcase name is held against the recognized set
//! and the whitespace-separated request list is split into single
//! requests. An unrecognized testcase refuses the whole configuration,
//! and the process must then exit with status 127 before any network
//! activity.

use vstd::prelude::*;
use vstd::string::StrSliceExecFns;

use crate::testcase::spec_testcase_of;
use crate::testcase::Testcase;

verus! {

/// Why a configuration was refused.
#[derive(Clone, Copy, Debug, PartialEq, Eq, Structural)]
pub enum ConfigError {
    /// The testcase name is not in the recognized set.
    UnknownTestcase,
}

/// Serde default for the request list: no requests.
pub fn default_requests() -> (r: String)
    ensures
        r@ == Seq::<char>::empty(),
{
    String::new()
}

/// Serde default for the qlog directory: qlog output is optional.
pub fn mucco() -> (r: String)
    ensures
        r@ == Seq::<char>::empty(),
{
    String::new()
}

/// A character of the Unicode White_Space set, the separator of the
/// request list.
pub open spec fn is_space(c: char) -> bool {
    let u = c as u32;
    ||| u == 0x20
    ||| 0x9 <= u <= 0xD
    ||| u == 0x85
    ||| u == 0xA0
    ||| u == 0x1680
    ||| 0x2000 <= u <= 0x200A
    ||| u == 0x2028
    ||| u == 0x2029
    ||| u == 0x202F
    ||| u == 0x205F
    ||| u == 0x3000
}

/// Whether a character separates words of the request list, exactly as
/// [`is_space`] says.
fn is_space_char(c: char) -> (r: bool)
    ensures
        r == is_space(c),
{
    let u = c as u32;
    u == 0x20 || (0x9 <= u && u <= 0xD) || u == 0x85 || u == 0xA0 || u == 0x1680 || (0x2000 <= u
        && u <= 0x200A) || u == 0x2028 || u == 0x2029 || u == 0x202F || u == 0x205F || u == 0x3000
}

/// A single left-to-right pass splitting on whitespace: `acc` holds the
/// words already finished, `word` the one being read, `rest` what is still
/// to come; empty words are dropped.
pub open spec fn ws_scan(acc: Seq<Seq<char>>, word: Seq<char>, rest: Seq<char>) -> Seq<Seq<char>>
    decreases rest.len(),
{
    if rest.len() == 0 {
        if word.len() == 0 {
            acc
        } else {
            acc.push(word)
        }
    } else if is_space(rest[0]) {
        ws_scan(
            if word.len() == 0 {
                acc
            } else {
                acc.push(word)
            },
            Seq::<char>::empty(),
            rest.skip(1),
        )
    } else {
        ws_scan(acc, word.push(rest[0]), rest.skip(1))
    }
}

/// The whitespace-separated words of `s`, in order, each nonempty.
pub open spec fn spec_split_ws(s: Seq<char>) -> Seq<Seq<char>> {
    ws_scan(Seq::<Seq<char>>::empty(), Seq::<char>::empty(), s)
}

/// Splits the space-separated request list into single requests, exactly
/// the nonempty words of [`spec_split_ws`], in order.
pub fn split_whitespace_words(s: &String) -> (r: Vec<String>)
    ensures
        r.deep_view() == spec_split_ws(s@),
{
    let st: &str = s.as_str();
    let n = st.unicode_len();
    let mut out: Vec<String> = Vec::new();
    let mut start: usize = 0;
    let mut i: usize = 0;
    proof {
        assert(out.deep_view() =~~= Seq::<Seq<char>>::empty());
        assert(st@.subrange(0, 0) =~= Seq::<char>::empty());
        assert(st@.skip(0) =~= st@);
    }
    while i < n
        invariant
            0 <= start <= i <= n,
            n == st@.len(),
            st@ == s@,
            ws_scan(out.deep_view(), st@.subrange(start as int, i as int), st@.skip(i as int))
                == spec_split_ws(s@),
        decreases n - i,
    {
        let c = st.get_char(i);
        let ghost word = st@.subrange(start as int, i as int);
        let ghost rest = st@.skip(i as int);
        proof {
            assert(rest[0] == st@[i as int]);
            assert(rest.skip(1) =~= st@.skip(i as int + 1));
        }
        if is_space_char(c) {
            if i > start {
                let w = st.substring_char(start, i).to_owned();
                let ghost dv0 = out.deep_view();
                out.push(w);
                proof {
                    assert(out.deep_view().len() == dv0.len() + 1);
                    assert(forall|k: int|
                        0 <= k < dv0.len() ==> out.deep_view()[k] == dv0[k]);
                    assert(out.deep_view()[dv0.len() as int] == w@);
                    assert(out.deep_view() =~~= dv0.push(word));
                }
            } else {
                proof {
                    assert(word.len() == 0);
                }
            }
            start = i + 1;
            proof {
                assert(st@.subrange(i as int + 1, i as int + 1) =~= Seq::<char>::empty());
            }
        } else {
            proof {
                assert(st@.subrange(start as int, i as int + 1) =~= word.push(st@[i as int]));
            }
        }
        i = i + 1;
    }
    proof {
        assert(st@.skip(i as int) =~= Seq::<char>::empty());
    }
    if i > start {
        let w = st.substring_char(start, i).to_owned();
        let ghost word = st@.subrange(start as int, i as int);
        let ghost dv0 = out.deep_view();
        out.push(w);
        proof {
            assert(out.deep_view().len() == dv0.len() + 1);
            assert(forall|k: int| 0 <= k < dv0.len() ==> out.deep_view()[k] == dv0[k]);
            assert(out.deep_view()[dv0.len() as int] == w@);
            assert(out.deep_view() =~~= dv0.push(word));
        }
    }
    out
}

/// The client's immutable run configuration, constructed once at process
/// start and read-only thereafter.
pub struct Config {
    /// Path and name of the NSS-format key log file, needed to decrypt
    /// traces when a test run is verified.
    pub sslkeylogfile: String,
    /// Directory for qlog output; optional and possibly empty.
    pub qlogdir: String,
    /// Directory for the client's general logs.
    pub logs: String,
    /// Name of the testcase; always one of the recognized set.
    pub testcase: String,
    /// Directory downloaded files are stored into, compared against the
    /// served files to verify a run.
    pub downloads: String,
    /// The requests to execute one by one, already split.
    pub requests: Vec<String>,
}

impl Config {
    /// Builds the configuration from the values the environment supplied,
    /// refusing any testcase name outside the recognized set and splitting
    /// the whitespace-separated request list.
    pub fn new(
        sslkeylogfile: String,
        qlogdir: String,
        logs: String,
        testcase: String,
        downloads: String,
        requests: String,
    ) -> (r: Result<Config, ConfigError>)
        ensures
            match r {
                Ok(c) => {
                    &&& spec_testcase_of(testcase@) is Some
                    &&& c.sslkeylogfile@ == sslkeylogfile@
                    &&& c.qlogdir@ == qlogdir@
                    &&& c.logs@ == logs@
                    &&& c.testcase@ == testcase@
                    &&& c.downloads@ == downloads@
                    &&& c.requests.deep_view() == spec_split_ws(requests@)
                },
                Err(e) => spec_testcase_of(testcase@) is None && e
                    == ConfigError::UnknownTestcase,
            },
    {
        if Testcase::from_name(&testcase).is_none() {
            return Err(ConfigError::UnknownTestcase);
        }
        let requests = split_whitespace_words(&requests);
        Ok(Config { sslkeylogfile, qlogdir, logs, testcase, downloads, requests })
    }
}

} // verus!
