//! Testcases and the transport/TLS policy each one selects.
//!
//! A testcase is one of a closed set of named interoperability scenarios.
//! The policy derived from it fixes the admitted cipher suites, whether
//! early data is enabled, and the ALPN protocol identifier; deriving it is
//! a pure function with no side effects.

use vstd::prelude::*;
use vstd::string::StringExecFns;

verus! {

/// TLS 1.3 cipher suite identifier for AES-128-GCM-SHA256 (IANA number).
pub const TLS13_AES_128_GCM_SHA256: u16 = 0x1301;

/// TLS 1.3 cipher suite identifier for AES-256-GCM-SHA384 (IANA number).
pub const TLS13_AES_256_GCM_SHA384: u16 = 0x1302;

/// TLS 1.3 cipher suite identifier for ChaCha20-Poly1305-SHA256 (IANA number).
pub const TLS13_CHACHA20_POLY1305_SHA256: u16 = 0x1303;

/// The named interoperability scenarios the harness recognizes.
#[derive(Clone, Copy, Debug, PartialEq, Eq, Structural)]
pub enum Testcase {
    Handshake,
    Transfer,
    Multihandshake,
    Chacha20,
    Retry,
    Resumption,
    Zerortt,
    Transportparameter,
    Goodput,
    Optimize,
}

/// The testcase a name denotes, or `None` for an unrecognized name.
pub open spec fn spec_testcase_of(name: Seq<char>) -> Option<Testcase> {
    if name == "handshake"@ {
        Some(Testcase::Handshake)
    } else if name == "transfer"@ {
        Some(Testcase::Transfer)
    } else if name == "multihandshake"@ {
        Some(Testcase::Multihandshake)
    } else if name == "chacha20"@ {
        Some(Testcase::Chacha20)
    } else if name == "retry"@ {
        Some(Testcase::Retry)
    } else if name == "resumption"@ {
        Some(Testcase::Resumption)
    } else if name == "zerortt"@ {
        Some(Testcase::Zerortt)
    } else if name == "transportparameter"@ {
        Some(Testcase::Transportparameter)
    } else if name == "goodput"@ {
        Some(Testcase::Goodput)
    } else if name == "optimize"@ {
        Some(Testcase::Optimize)
    } else {
        None
    }
}

impl Testcase {
    /// Looks a testcase up by its configured name; unrecognized names give
    /// `None` and must abort the run before any network activity.
    pub fn from_name(name: &String) -> (r: Option<Testcase>)
        ensures
            r == spec_testcase_of(name@),
    {
        if *name == String::from_str("handshake") {
            Some(Testcase::Handshake)
        } else if *name == String::from_str("transfer") {
            Some(Testcase::Transfer)
        } else if *name == String::from_str("multihandshake") {
            Some(Testcase::Multihandshake)
        } else if *name == String::from_str("chacha20") {
            Some(Testcase::Chacha20)
        } else if *name == String::from_str("retry") {
            Some(Testcase::Retry)
        } else if *name == String::from_str("resumption") {
            Some(Testcase::Resumption)
        } else if *name == String::from_str("zerortt") {
            Some(Testcase::Zerortt)
        } else if *name == String::from_str("transportparameter") {
            Some(Testcase::Transportparameter)
        } else if *name == String::from_str("goodput") {
            Some(Testcase::Goodput)
        } else if *name == String::from_str("optimize") {
            Some(Testcase::Optimize)
        } else {
            None
        }
    }
}

/// ALPN protocol identifier of the HTTP-like file-transfer protocol: `h3`.
pub open spec fn spec_alpn() -> Seq<u8> {
    seq![104u8, 51u8]
}

/// The cipher suites a testcase admits: only ChaCha20-Poly1305 under
/// `chacha20`, the full safe default set otherwise.
pub open spec fn spec_cipher_suites(tc: Testcase) -> Seq<u16> {
    if tc == Testcase::Chacha20 {
        seq![TLS13_CHACHA20_POLY1305_SHA256]
    } else {
        seq![TLS13_AES_128_GCM_SHA256, TLS13_AES_256_GCM_SHA384, TLS13_CHACHA20_POLY1305_SHA256]
    }
}

/// Transport/TLS options derived from a testcase.
pub struct TlsPolicy {
    /// Cipher suites the endpoint may negotiate, by IANA identifier.
    pub cipher_suites: Vec<u16>,
    /// Whether early data (0-RTT) is advertised and accepted.
    pub enable_early_data: bool,
    /// The single ALPN protocol identifier offered.
    pub alpn: Vec<u8>,
}

/// What the policy for a testcase holds: the testcase's cipher suites,
/// early data on, and the protocol's single ALPN identifier.
pub open spec fn policy_matches(tc: Testcase, p: TlsPolicy) -> bool {
    &&& p.cipher_suites@ == spec_cipher_suites(tc)
    &&& p.enable_early_data == true
    &&& p.alpn@ == spec_alpn()
}

/// Derives the transport/TLS policy of a testcase. Total over the closed
/// testcase set and free of side effects.
pub fn policy_for(tc: Testcase) -> (p: TlsPolicy)
    ensures
        policy_matches(tc, p),
{
    let cipher_suites: Vec<u16> = match tc {
        Testcase::Chacha20 => {
            let v = vec![TLS13_CHACHA20_POLY1305_SHA256];
            proof {
                assert(v@ =~= spec_cipher_suites(tc));
            }
            v
        },
        _ => {
            let v = vec![
                TLS13_AES_128_GCM_SHA256,
                TLS13_AES_256_GCM_SHA384,
                TLS13_CHACHA20_POLY1305_SHA256,
            ];
            proof {
                assert(v@ =~= spec_cipher_suites(tc));
            }
            v
        },
    };
    let alpn = vec![104u8, 51u8];
    proof {
        assert(alpn@ =~= spec_alpn());
    }
    TlsPolicy { cipher_suites, enable_early_data: true, alpn }
}

/// Whether a negotiated cipher suite is one the policy admits.
pub fn suite_allowed(policy: &TlsPolicy, suite: u16) -> (r: bool)
    ensures
        r == policy.cipher_suites@.contains(suite),
{
    let mut i: usize = 0;
    while i < policy.cipher_suites.len()
        invariant
            0 <= i <= policy.cipher_suites@.len(),
            forall|k: int| 0 <= k < i ==> policy.cipher_suites@[k] != suite,
        decreases policy.cipher_suites@.len() - i,
    {
        if policy.cipher_suites[i] == suite {
            return true;
        }
        i = i + 1;
    }
    false
}

/// Law: the testcase-to-policy mapping is deterministic: any two policies
/// derived for the same testcase agree on every setting.
pub proof fn lemma_policy_deterministic(tc: Testcase, p1: TlsPolicy, p2: TlsPolicy)
    requires
        policy_matches(tc, p1),
        policy_matches(tc, p2),
    ensures
        p1.cipher_suites@ == p2.cipher_suites@,
        p1.enable_early_data == p2.enable_early_data,
        p1.alpn@ == p2.alpn@,
{
}

/// Law: under the `chacha20` testcase the policy admits exactly the
/// ChaCha20-Poly1305 suite; a handshake that negotiated any other suite is
/// outside the policy.
pub proof fn lemma_chacha20_restricts_suite(p: TlsPolicy, suite: u16)
    requires
        policy_matches(Testcase::Chacha20, p),
    ensures
        p.cipher_suites@.contains(suite) <==> suite == TLS13_CHACHA20_POLY1305_SHA256,
{
    if suite == TLS13_CHACHA20_POLY1305_SHA256 {
        assert(p.cipher_suites@[0] == suite);
    }
}

} // verus!
