//! The textual endpoint grammar: `METHOD path`.
//!
//! An endpoint is written as one or more upper-case ASCII letters, a
//! non-empty run of whitespace, and a non-empty remainder, which must then
//! be a valid route.  Text that does not split this way is malformed; a
//! split whose remainder is not a valid route has an invalid path.

use vstd::prelude::*;
use vstd::string::StrSliceExecFns;
use vstd::string::StringExecFns;
use crate::errors::ConfigError;
use crate::model::{is_upper_alpha, valid_route_char, valid_route_text, EndpointCore};

verus! {

/// The whitespace characters the grammar accepts between method and path.
pub open spec fn is_space_char(c: char) -> bool {
    c == ' ' || c == '\t' || c == '\n' || c == '\r' || c == '\u{b}' || c == '\u{c}'
}

/// `m` and `w` split `s` into a maximal non-empty method token of
/// upper-case letters (`s[..m]`), a maximal non-empty whitespace run
/// (`s[m..m+w]`) and a non-empty remainder (`s[m+w..]`).
pub open spec fn spec_grammar_parts(s: Seq<char>, m: int, w: int) -> bool {
    &&& 1 <= m
    &&& 1 <= w
    &&& m + w < s.len()
    &&& (forall|i: int| 0 <= i < m ==> is_upper_alpha(#[trigger] s[i]))
    &&& !is_upper_alpha(s[m])
    &&& (forall|i: int| m <= i < m + w ==> is_space_char(#[trigger] s[i]))
    &&& !is_space_char(s[m + w])
}

/// The endpoint grammar matches `s`.
pub open spec fn spec_grammar_matches(s: Seq<char>) -> bool {
    exists|mw: (int, int)| spec_grammar_parts(s, mw.0, mw.1)
}

/// The method token and path remainder of a matching text.
pub open spec fn spec_endpoint_of(s: Seq<char>) -> (Seq<char>, Seq<char>) {
    let mw = choose|mw: (int, int)| spec_grammar_parts(s, mw.0, mw.1);
    (s.take(mw.0), s.subrange(mw.0 + mw.1, s.len() as int))
}

/// A text splits under the grammar in at most one way: the method token
/// and the whitespace run are both maximal.
pub proof fn lemma_grammar_parts_unique(s: Seq<char>, m1: int, w1: int, m2: int, w2: int)
    requires
        spec_grammar_parts(s, m1, w1),
        spec_grammar_parts(s, m2, w2),
    ensures
        m1 == m2,
        w1 == w2,
{
    if m1 < m2 {
        assert(is_upper_alpha(s[m1]));
    }
    if m2 < m1 {
        assert(is_upper_alpha(s[m2]));
    }
    if w1 < w2 {
        assert(is_space_char(s[m1 + w1]));
    }
    if w2 < w1 {
        assert(is_space_char(s[m2 + w2]));
    }
}

/// Checks that `p` is a valid route: non-empty, starting with `/`, all
/// characters printable ASCII without spaces or `#`.
pub fn check_route_text(p: &str) -> (r: bool)
    ensures
        r == valid_route_text(p@),
{
    let n = p.unicode_len();
    if n == 0 {
        return false;
    }
    if p.get_char(0) != '/' {
        return false;
    }
    let mut k: usize = 0;
    while k < n
        invariant
            n == p@.len(),
            0 <= k <= n,
            n > 0,
            p@[0] == '/',
            forall|i: int| 0 <= i < k ==> valid_route_char(#[trigger] p@[i]),
        decreases n - k,
    {
        let c = p.get_char(k);
        if !('!' <= c && c <= '~') || c == '#' {
            return false;
        }
        k = k + 1;
    }
    true
}

/// The end of the run of upper-case ASCII letters starting at `from`.
fn scan_upper(s: &str, from: usize) -> (r: usize)
    requires
        from <= s@.len(),
    ensures
        from <= r <= s@.len(),
        forall|i: int| from <= i < r ==> is_upper_alpha(#[trigger] s@[i]),
        r < s@.len() ==> !is_upper_alpha(s@[r as int]),
    decreases s@.len() - from,
{
    let n = s.unicode_len();
    if from == n {
        return from;
    }
    let c = s.get_char(from);
    if 'A' <= c && c <= 'Z' {
        scan_upper(s, from + 1)
    } else {
        from
    }
}

/// The end of the run of whitespace starting at `from`.
fn scan_space(s: &str, from: usize) -> (r: usize)
    requires
        from <= s@.len(),
    ensures
        from <= r <= s@.len(),
        forall|i: int| from <= i < r ==> is_space_char(#[trigger] s@[i]),
        r < s@.len() ==> !is_space_char(s@[r as int]),
    decreases s@.len() - from,
{
    let n = s.unicode_len();
    if from == n {
        return from;
    }
    let c = s.get_char(from);
    if c == ' ' || c == '\t' || c == '\n' || c == '\r' || c == '\u{b}' || c == '\u{c}' {
        scan_space(s, from + 1)
    } else {
        from
    }
}

/// Parses `METHOD path` text into an endpoint.
///
/// Returns the endpoint exactly when the grammar matches and the remainder
/// is a valid route; reports `MalformedEndpoint` (with the whole text) when
/// the grammar does not match, and `InvalidPath` (with the path token) when
/// it matches but the remainder is no route.
pub fn extract_endpoint(s: &str) -> (r: Result<EndpointCore, ConfigError>)
    ensures
        r is Ok <==> spec_grammar_matches(s@) && valid_route_text(spec_endpoint_of(s@).1),
        r matches Ok(e) ==> {
            &&& e.method@ == spec_endpoint_of(s@).0
            &&& e.route@ == spec_endpoint_of(s@).1
            &&& e.wf()
        },
        !spec_grammar_matches(s@) ==> (r matches Err(ConfigError::MalformedEndpoint(raw)) && raw@
            == s@),
        spec_grammar_matches(s@) && !valid_route_text(spec_endpoint_of(s@).1) ==> (r matches Err(
            ConfigError::InvalidPath(p),
        ) && p@ == spec_endpoint_of(s@).1),
{
    let n = s.unicode_len();
    let m = scan_upper(s, 0);
    if m == 0 || m == n {
        proof {
            assert forall|mw: (int, int)| !spec_grammar_parts(s@, mw.0, mw.1) by {
                if spec_grammar_parts(s@, mw.0, mw.1) {
                    if m == 0 {
                        assert(is_upper_alpha(s@[0]));
                    } else {
                        assert(mw.0 < n);
                        if mw.0 < m {
                            assert(is_upper_alpha(s@[mw.0]));
                        } else {
                            assert(is_upper_alpha(s@[m as int]) == false);
                            assert(forall|i: int|
                                0 <= i < mw.0 ==> is_upper_alpha(#[trigger] s@[i]));
                        }
                    }
                }
            }
        }
        return Err(ConfigError::MalformedEndpoint(s.to_owned()));
    }
    let e = scan_space(s, m);
    let ghost w = e - m;
    if e == m || e == n {
        proof {
            assert(!is_upper_alpha(s@[m as int]));
            assert forall|mw: (int, int)| !spec_grammar_parts(s@, mw.0, mw.1) by {
                if spec_grammar_parts(s@, mw.0, mw.1) {
                    lemma_same_method_bound(s@, mw.0, mw.1, m as int);
                    if e == m {
                        assert(is_space_char(s@[m as int]));
                    } else {
                        if mw.0 + mw.1 < e {
                            assert(is_space_char(s@[mw.0 + mw.1]));
                        } else {
                            assert(mw.0 + mw.1 < n);
                            assert(is_space_char(s@[mw.0 + mw.1]) == false);
                        }
                    }
                }
            }
        }
        return Err(ConfigError::MalformedEndpoint(s.to_owned()));
    }
    proof {
        assert(!is_upper_alpha(s@[m as int]));
        assert(!is_space_char(s@[e as int]));
        let mw0 = (m as int, w);
        assert(spec_grammar_parts(s@, mw0.0, mw0.1));
        let mw = choose|mw: (int, int)| spec_grammar_parts(s@, mw.0, mw.1);
        lemma_grammar_parts_unique(s@, mw.0, mw.1, m as int, w);
    }
    let method = s.substring_char(0, m);
    let path = s.substring_char(e, n);
    if !check_route_text(path) {
        return Err(ConfigError::InvalidPath(path.to_owned()));
    }
    Ok(EndpointCore { route: path.to_owned(), method: method.to_owned() })
}

/// Inside one text, every grammar split has the same method length as the
/// maximal upper-case prefix found by a scan that stopped at `m`.
proof fn lemma_same_method_bound(s: Seq<char>, m0: int, w0: int, m: int)
    requires
        spec_grammar_parts(s, m0, w0),
        0 < m < s.len(),
        forall|i: int| 0 <= i < m ==> is_upper_alpha(#[trigger] s[i]),
        !is_upper_alpha(s[m]),
    ensures
        m0 == m,
{
    if m0 < m {
        assert(is_upper_alpha(s[m0]));
    }
    if m < m0 {
        assert(is_upper_alpha(s[m]));
    }
}

} // verus!
