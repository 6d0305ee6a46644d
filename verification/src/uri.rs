//! Splitting a request target into host, port and path.
//!
//! A target has the form `https://host[:port]/path`: the scheme before the
//! first colon must be `https`, two separators introduce the authority,
//! the authority runs to the next separator, and the rest is the requested
//! path (`/` when absent). A final all-digit authority suffix after a colon
//! is the port, 443 when absent or empty; a suffix with other bytes is part
//! of the host, as in a bracketed address.

use vstd::prelude::*;

use crate::resolve::SLASH;

verus! {

/// Colon byte (`':'`), ending the scheme and introducing the port.
pub const COLON: u8 = 58;

/// Why a request target was refused.
#[derive(Clone, Copy, Debug, PartialEq, Eq, Structural)]
pub enum UriError {
    /// No colon ends a scheme.
    MissingScheme,
    /// The scheme is not `https`.
    SchemeNotHttps,
    /// No authority follows the scheme, or the host part is empty.
    MissingHost,
    /// The port digits do not fit a port number.
    InvalidPort,
}

/// A request target, taken apart.
pub struct Target {
    /// The host part of the authority, as it stands in the target.
    pub host: Vec<u8>,
    /// The port, 443 when the target names none.
    pub port: u16,
    /// The requested path, always starting with a separator.
    pub path: Vec<u8>,
}

/// The bytes of the `https` scheme.
pub open spec fn https_bytes() -> Seq<u8> {
    seq![104u8, 116u8, 116u8, 112u8, 115u8]
}

/// The first index at which `b` stands in `s`, if any.
pub open spec fn first_index_of(s: Seq<u8>, b: u8) -> Option<int>
    decreases s.len(),
{
    if s.len() == 0 {
        None
    } else if s[0] == b {
        Some(0)
    } else {
        match first_index_of(s.skip(1), b) {
            Some(i) => Some(i + 1),
            None => None,
        }
    }
}

/// The last index at which `b` stands in `s`, if any.
pub open spec fn last_index_of(s: Seq<u8>, b: u8) -> Option<int>
    decreases s.len(),
{
    if s.len() == 0 {
        None
    } else if s[s.len() - 1] == b {
        Some(s.len() - 1)
    } else {
        last_index_of(s.drop_last(), b)
    }
}

/// An ASCII decimal digit.
pub open spec fn is_digit(b: u8) -> bool {
    48 <= b <= 57
}

/// Every byte is an ASCII decimal digit.
pub open spec fn all_digits(s: Seq<u8>) -> bool {
    forall|k: int| 0 <= k < s.len() ==> is_digit(#[trigger] s[k])
}

/// The number the decimal digits spell.
pub open spec fn digits_value(s: Seq<u8>) -> int
    decreases s.len(),
{
    if s.len() == 0 {
        0
    } else {
        digits_value(s.drop_last()) * 10 + (s.last() - 48)
    }
}

/// The host and port of an authority: a final all-digit suffix after a
/// colon is the port and must fit a port number; no colon, an empty
/// suffix, or a suffix with other bytes means port 443. At most five
/// digits spell a port here.
pub open spec fn spec_authority_host_port(auth: Seq<u8>) -> Result<(Seq<u8>, u16), UriError> {
    match last_index_of(auth, COLON) {
        None => Ok((auth, 443u16)),
        Some(j) => {
            let suffix = auth.skip(j + 1);
            if suffix.len() == 0 {
                Ok((auth.take(j), 443u16))
            } else if all_digits(suffix) {
                if suffix.len() <= 5 && digits_value(suffix) <= 65535 {
                    Ok((auth.take(j), digits_value(suffix) as u16))
                } else {
                    Err(UriError::InvalidPort)
                }
            } else {
                Ok((auth, 443u16))
            }
        },
    }
}

/// What splitting a request target returns: host, port and path, or the
/// reason the target is refused. The scheme must be `https`, an authority
/// must follow it, and its host part must be nonempty.
pub open spec fn spec_split_target(u: Seq<u8>) -> Result<(Seq<u8>, u16, Seq<u8>), UriError> {
    match first_index_of(u, COLON) {
        None => Err(UriError::MissingScheme),
        Some(i) => {
            if u.take(i) != https_bytes() {
                Err(UriError::SchemeNotHttps)
            } else if u.len() < i + 3 || u[i + 1] != SLASH || u[i + 2] != SLASH {
                Err(UriError::MissingHost)
            } else {
                let rest = u.skip(i + 3);
                let auth = match first_index_of(rest, SLASH) {
                    None => rest,
                    Some(k) => rest.take(k),
                };
                let path = match first_index_of(rest, SLASH) {
                    None => seq![SLASH],
                    Some(k) => rest.skip(k),
                };
                if auth.len() == 0 {
                    Err(UriError::MissingHost)
                } else {
                    match spec_authority_host_port(auth) {
                        Err(e) => Err(e),
                        Ok((host, port)) => if host.len() == 0 {
                            Err(UriError::MissingHost)
                        } else {
                            Ok((host, port, path))
                        },
                    }
                }
            }
        },
    }
}

/// A byte `b` at `i` with none before it is the first occurrence.
proof fn lemma_first_index_here(s: Seq<u8>, b: u8, i: int)
    requires
        0 <= i < s.len(),
        s[i] == b,
        forall|k: int| 0 <= k < i ==> s[k] != b,
    ensures
        first_index_of(s, b) == Some(i),
    decreases i,
{
    if i > 0 {
        lemma_first_index_here(s.skip(1), b, i - 1);
    }
}

/// Without an occurrence of `b` there is no first one.
proof fn lemma_first_index_none(s: Seq<u8>, b: u8)
    requires
        forall|k: int| 0 <= k < s.len() ==> s[k] != b,
    ensures
        first_index_of(s, b) is None,
    decreases s.len(),
{
    if s.len() > 0 {
        lemma_first_index_none(s.skip(1), b);
    }
}

/// A byte `b` at `j` with none after it is the last occurrence.
proof fn lemma_last_index_here(s: Seq<u8>, b: u8, j: int)
    requires
        0 <= j < s.len(),
        s[j] == b,
        forall|k: int| j < k < s.len() ==> s[k] != b,
    ensures
        last_index_of(s, b) == Some(j),
    decreases s.len(),
{
    if j < s.len() - 1 {
        lemma_last_index_here(s.drop_last(), b, j);
    }
}

/// Without an occurrence of `b` there is no last one.
proof fn lemma_last_index_none(s: Seq<u8>, b: u8)
    requires
        forall|k: int| 0 <= k < s.len() ==> s[k] != b,
    ensures
        last_index_of(s, b) is None,
    decreases s.len(),
{
    if s.len() > 0 {
        lemma_last_index_none(s.drop_last(), b);
    }
}

/// Finds the first occurrence of `b` in `s`, as [`first_index_of`] says.
fn find_byte(s: &[u8], b: u8) -> (r: Option<usize>)
    ensures
        match r {
            Some(i) => i < s@.len() && s@[i as int] == b && first_index_of(s@, b) == Some(
                i as int,
            ),
            None => first_index_of(s@, b) is None,
        },
{
    let mut i: usize = 0;
    while i < s.len()
        invariant
            0 <= i <= s@.len(),
            forall|k: int| 0 <= k < i ==> s@[k] != b,
        decreases s@.len() - i,
    {
        if s[i] == b {
            proof {
                lemma_first_index_here(s@, b, i as int);
            }
            return Some(i);
        }
        i = i + 1;
    }
    proof {
        lemma_first_index_none(s@, b);
    }
    None
}

/// Finds the last occurrence of `b` in `s`, as [`last_index_of`] says.
fn rfind_byte(s: &[u8], b: u8) -> (r: Option<usize>)
    ensures
        match r {
            Some(j) => j < s@.len() && last_index_of(s@, b) == Some(j as int),
            None => last_index_of(s@, b) is None,
        },
{
    let mut j: usize = s.len();
    while j > 0
        invariant
            0 <= j <= s@.len(),
            forall|k: int| j <= k < s@.len() ==> s@[k] != b,
        decreases j,
    {
        j = j - 1;
        if s[j] == b {
            proof {
                lemma_last_index_here(s@, b, j as int);
            }
            return Some(j);
        }
    }
    proof {
        lemma_last_index_none(s@, b);
    }
    None
}

/// Ten to the `n`th.
pub open spec fn pow10(n: nat) -> int
    decreases n,
{
    if n == 0 {
        1
    } else {
        10 * pow10((n - 1) as nat)
    }
}

/// The number some digits spell stays under ten to their count.
proof fn lemma_digits_value_bound(s: Seq<u8>)
    requires
        all_digits(s),
    ensures
        0 <= digits_value(s) < pow10(s.len()),
    decreases s.len(),
{
    if s.len() > 0 {
        assert(all_digits(s.drop_last())) by {
            assert(forall|k: int| 0 <= k < s.len() - 1 ==> s.drop_last()[k] == s[k]);
        }
        lemma_digits_value_bound(s.drop_last());
        assert(is_digit(s.last()));
    }
}

/// Reads at most five decimal digits as a number; within five digits the
/// value stays under 100000.
fn parse_digits(s: &[u8]) -> (r: u32)
    requires
        all_digits(s@),
        s@.len() <= 5,
    ensures
        r == digits_value(s@),
        r < 100000,
{
    let mut value: u32 = 0;
    let mut d: usize = 0;
    proof {
        assert(s@.take(0) =~= Seq::<u8>::empty());
    }
    while d < s.len()
        invariant
            0 <= d <= s@.len() <= 5,
            all_digits(s@),
            value == digits_value(s@.take(d as int)),
            value < pow10(d as nat),
            value < 100000,
        decreases s@.len() - d,
    {
        let b = s[d];
        proof {
            assert(is_digit(s@[d as int]));
            assert(s@.take(d as int + 1).drop_last() =~= s@.take(d as int));
            assert(s@.take(d as int + 1).last() == s@[d as int]);
            lemma_digits_value_bound(s@.take(d as int));
            assert(pow10(d as nat + 1) == 10 * pow10(d as nat));
            assert(pow10(5nat) == 100000) by {
                assert(pow10(0nat) == 1);
                assert(pow10(1nat) == 10);
                assert(pow10(2nat) == 100);
                assert(pow10(3nat) == 1000);
                assert(pow10(4nat) == 10000);
            }
            assert(pow10(d as nat + 1) <= pow10(5nat)) by {
                lemma_pow10_monotonic(d as nat + 1, 5nat);
            }
        }
        value = value * 10 + ((b - 48) as u32);
        d = d + 1;
    }
    proof {
        assert(s@.take(d as int) =~= s@);
    }
    value
}

/// Ten to a smaller count is no larger.
proof fn lemma_pow10_monotonic(a: nat, b: nat)
    requires
        a <= b,
    ensures
        pow10(a) <= pow10(b),
        pow10(a) >= 1,
    decreases b,
{
    if a < b {
        lemma_pow10_monotonic(a, (b - 1) as nat);
    } else if a > 0 {
        lemma_pow10_monotonic((a - 1) as nat, (b - 1) as nat);
    }
}

/// Whether every byte of `s` is a decimal digit.
fn check_all_digits(s: &[u8]) -> (r: bool)
    ensures
        r == all_digits(s@),
{
    let mut k: usize = 0;
    while k < s.len()
        invariant
            0 <= k <= s@.len(),
            forall|t: int| 0 <= t < k ==> is_digit(#[trigger] s@[t]),
        decreases s@.len() - k,
    {
        let b = s[k];
        if b < 48 || b > 57 {
            proof {
                assert(!is_digit(s@[k as int]));
            }
            return false;
        }
        k = k + 1;
    }
    true
}

/// Takes an authority apart into host and port, as
/// [`spec_authority_host_port`] says.
fn authority_host_port(auth: &[u8]) -> (r: Result<(Vec<u8>, u16), UriError>)
    ensures
        match r {
            Ok(p) => spec_authority_host_port(auth@) == Ok::<(Seq<u8>, u16), UriError>(
                (p.0@, p.1),
            ),
            Err(e) => spec_authority_host_port(auth@) == Err::<(Seq<u8>, u16), UriError>(e),
        },
{
    let j = match rfind_byte(auth, COLON) {
        None => {
            return Ok((vstd::slice::slice_to_vec(auth), 443));
        },
        Some(j) => j,
    };
    let auth_len = auth.len();
    let suffix = vstd::slice::slice_subrange(auth, j + 1, auth_len);
    proof {
        assert(suffix@ =~= auth@.skip(j + 1));
    }
    if suffix.len() == 0 {
        let host = vstd::slice::slice_subrange(auth, 0, j);
        proof {
            assert(host@ =~= auth@.take(j as int));
        }
        return Ok((vstd::slice::slice_to_vec(host), 443));
    }
    if !check_all_digits(suffix) {
        return Ok((vstd::slice::slice_to_vec(auth), 443));
    }
    if suffix.len() > 5 {
        return Err(UriError::InvalidPort);
    }
    let value = parse_digits(suffix);
    if value > 65535 {
        return Err(UriError::InvalidPort);
    }
    let host = vstd::slice::slice_subrange(auth, 0, j);
    proof {
        assert(host@ =~= auth@.take(j as int));
    }
    Ok((vstd::slice::slice_to_vec(host), value as u16))
}

/// Splits a request target into host, port and path, as
/// [`spec_split_target`] says: the scheme must be `https`, the authority
/// must be there with a nonempty host, and the path is `/` when the target
/// names none.
pub fn split_target(uri: &[u8]) -> (r: Result<Target, UriError>)
    ensures
        match r {
            Ok(t) => spec_split_target(uri@) == Ok::<(Seq<u8>, u16, Seq<u8>), UriError>(
                (t.host@, t.port, t.path@),
            ) && t.path@.len() > 0 && t.path@[0] == SLASH,
            Err(e) => spec_split_target(uri@) == Err::<(Seq<u8>, u16, Seq<u8>), UriError>(e),
        },
{
    let i = match find_byte(uri, COLON) {
        None => {
            return Err(UriError::MissingScheme);
        },
        Some(i) => i,
    };
    let scheme_ok = i == 5 && uri[0] == 104 && uri[1] == 116 && uri[2] == 116 && uri[3] == 112
        && uri[4] == 115;
    proof {
        if scheme_ok {
            assert(uri@.take(i as int) =~= https_bytes());
        } else {
            assert(uri@.take(i as int) != https_bytes()) by {
                if uri@.take(i as int) == https_bytes() {
                    assert(uri@.take(i as int).len() == 5);
                    assert(uri@[0] == https_bytes()[0]);
                    assert(uri@[1] == https_bytes()[1]);
                    assert(uri@[2] == https_bytes()[2]);
                    assert(uri@[3] == https_bytes()[3]);
                    assert(uri@[4] == https_bytes()[4]);
                }
            }
        }
    }
    if !scheme_ok {
        return Err(UriError::SchemeNotHttps);
    }
    if uri.len() - i < 3 || uri[i + 1] != SLASH || uri[i + 2] != SLASH {
        return Err(UriError::MissingHost);
    }
    let rest = vstd::slice::slice_subrange(uri, i + 3, uri.len());
    proof {
        assert(rest@ =~= uri@.skip(i as int + 3));
    }
    let (auth, path): (&[u8], Vec<u8>) = match find_byte(rest, SLASH) {
        None => {
            let p = vec![SLASH];
            proof {
                assert(p@ =~= seq![SLASH]);
            }
            (rest, p)
        },
        Some(k) => {
            let a = vstd::slice::slice_subrange(rest, 0, k);
            let p = vstd::slice::slice_to_vec(
                vstd::slice::slice_subrange(rest, k, rest.len()),
            );
            proof {
                assert(a@ =~= rest@.take(k as int));
                assert(p@ =~= rest@.skip(k as int));
                assert(p@[0] == rest@[k as int]);
            }
            (a, p)
        },
    };
    if auth.len() == 0 {
        return Err(UriError::MissingHost);
    }
    match authority_host_port(auth) {
        Err(e) => Err(e),
        Ok((host, port)) => {
            if host.len() == 0 {
                return Err(UriError::MissingHost);
            }
            Ok(Target { host, port, path })
        },
    }
}

} // verus!
