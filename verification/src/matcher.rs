//! Request matching: the first rule whose header predicate the request
//! meets wins; no rule matching is the 404 terminal state.
//!
//! Header names are compared case-insensitively (byte-wise ASCII folding
//! over their UTF-8 forms, as HTTP requires); header values must be equal
//! exactly, case included.

use vstd::prelude::*;
use vstd::utf8::encode_utf8;
use crate::model::RuleCore;
use crate::strings::{eq_ignore_ascii_case, spec_lower_bytes};

verus! {

/// Case-insensitive equality of two header names.
pub open spec fn spec_name_eq_ci(a: Seq<char>, b: Seq<char>) -> bool {
    spec_lower_bytes(encode_utf8(a)) == spec_lower_bytes(encode_utf8(b))
}

/// The value of the first header whose name matches `name`
/// case-insensitively, if any.
pub open spec fn spec_header_value(
    headers: Seq<(Seq<char>, Seq<char>)>,
    name: Seq<char>,
) -> Option<Seq<char>>
    decreases headers.len(),
{
    if headers.len() == 0 {
        None
    } else if spec_name_eq_ci(headers[0].0, name) {
        Some(headers[0].1)
    } else {
        spec_header_value(headers.drop_first(), name)
    }
}

/// A header predicate passes: every entry's name is present among the
/// request headers with exactly the entry's value.  The empty predicate
/// passes unconditionally.
pub open spec fn spec_predicate_passes(
    pred: Seq<(Seq<char>, Seq<char>)>,
    headers: Seq<(Seq<char>, Seq<char>)>,
) -> bool {
    forall|i: int|
        0 <= i < pred.len() ==> spec_header_value(headers, (#[trigger] pred[i]).0) == Some(
            pred[i].1,
        )
}

/// The index of the first rule in the bucket whose predicate passes.
pub open spec fn spec_first_match(
    rules: Seq<RuleCore>,
    headers: Seq<(Seq<char>, Seq<char>)>,
) -> Option<int>
    decreases rules.len(),
{
    if rules.len() == 0 {
        None
    } else if spec_predicate_passes(rules[0].headers.deep_view(), headers) {
        Some(0)
    } else {
        match spec_first_match(rules.drop_first(), headers) {
            None => None,
            Some(i) => Some(i + 1),
        }
    }
}

/// The first match is the least passing index.
pub proof fn lemma_first_match_characterizes(
    rules: Seq<RuleCore>,
    headers: Seq<(Seq<char>, Seq<char>)>,
)
    ensures
        match spec_first_match(rules, headers) {
            Some(i) => {
                &&& 0 <= i < rules.len()
                &&& spec_predicate_passes(rules[i].headers.deep_view(), headers)
                &&& forall|j: int|
                    0 <= j < i ==> !spec_predicate_passes(
                        (#[trigger] rules[j]).headers.deep_view(),
                        headers,
                    )
            },
            None => forall|j: int|
                0 <= j < rules.len() ==> !spec_predicate_passes(
                    (#[trigger] rules[j]).headers.deep_view(),
                    headers,
                ),
        },
    decreases rules.len(),
{
    if rules.len() > 0 {
        lemma_first_match_characterizes(rules.drop_first(), headers);
        if !spec_predicate_passes(rules[0].headers.deep_view(), headers) {
            assert forall|j: int| 1 <= j < rules.len() implies rules.drop_first()[j - 1] == rules[j]
            by {}
        }
    }
}

/// Looks a header up by name, case-insensitively; the first header with
/// that name wins.
pub fn header_value(headers: &Vec<(String, String)>, name: &str) -> (r: Option<String>)
    ensures
        match r {
            Some(v) => spec_header_value(headers.deep_view(), name@) == Some(v@),
            None => spec_header_value(headers.deep_view(), name@) is None,
        },
{
    let n = headers.len();
    let mut k: usize = 0;
    proof {
        assert(headers.deep_view().skip(0) =~= headers.deep_view());
    }
    while k < n
        invariant
            n == headers@.len(),
            0 <= k <= n,
            spec_header_value(headers.deep_view(), name@) == spec_header_value(
                headers.deep_view().skip(k as int),
                name@,
            ),
        decreases n - k,
    {
        proof {
            assert(headers.deep_view().skip(k as int)[0] == headers.deep_view()[k as int]);
            assert(headers.deep_view()[k as int] == (headers@[k as int].0@, headers@[
                k as int].1@));
        }
        if eq_ignore_ascii_case(headers[k].0.as_str(), name) {
            return Some(headers[k].1.clone());
        }
        proof {
            assert(headers.deep_view().skip(k as int).drop_first() =~= headers.deep_view().skip(
                k + 1 as int,
            ));
        }
        k = k + 1;
    }
    proof {
        assert(headers.deep_view().skip(n as int).len() == 0);
    }
    None
}

/// Tests one rule's header predicate against the request headers.
pub fn rule_headers_match(pred: &Vec<(String, String)>, headers: &Vec<(String, String)>) -> (r:
    bool)
    ensures
        r == spec_predicate_passes(pred.deep_view(), headers.deep_view()),
{
    let n = pred.len();
    let mut k: usize = 0;
    while k < n
        invariant
            n == pred@.len(),
            0 <= k <= n,
            forall|i: int|
                0 <= i < k ==> spec_header_value(headers.deep_view(), (#[trigger] pred.deep_view()[
                    i]).0) == Some(pred.deep_view()[i].1),
        decreases n - k,
    {
        proof {
            assert(pred.deep_view()[k as int] == (pred@[k as int].0@, pred@[k as int].1@));
        }
        let found = header_value(headers, pred[k].0.as_str());
        match found {
            None => {
                return false;
            },
            Some(v) => {
                if !(v == pred[k].1) {
                    return false;
                }
            },
        }
        k = k + 1;
    }
    true
}

/// Picks the first rule in the bucket whose predicate the request meets.
pub fn select_rule(rules: &Vec<RuleCore>, headers: &Vec<(String, String)>) -> (r: Option<usize>)
    ensures
        match r {
            Some(i) => i < rules@.len() && spec_first_match(rules@, headers.deep_view()) == Some(
                i as int,
            ),
            None => spec_first_match(rules@, headers.deep_view()) is None,
        },
{
    let n = rules.len();
    let mut k: usize = 0;
    proof {
        assert(rules@.skip(0) =~= rules@);
    }
    while k < n
        invariant
            n == rules@.len(),
            0 <= k <= n,
            spec_first_match(rules@, headers.deep_view()) == (match spec_first_match(
                rules@.skip(k as int),
                headers.deep_view(),
            ) {
                None => None::<int>,
                Some(i) => Some(i + k as int),
            }),
        decreases n - k,
    {
        proof {
            assert(rules@.skip(k as int)[0] == rules@[k as int]);
        }
        if rule_headers_match(&rules[k].headers, headers) {
            return Some(k);
        }
        proof {
            assert(rules@.skip(k as int).drop_first() =~= rules@.skip(k + 1 as int));
        }
        k = k + 1;
    }
    proof {
        assert(rules@.skip(n as int).len() == 0);
    }
    None
}

/// A rule with an empty header predicate matches any request.
pub proof fn lemma_empty_predicate_passes(headers: Seq<(Seq<char>, Seq<char>)>)
    ensures
        spec_predicate_passes(Seq::empty(), headers),
{
}

/// A one-entry predicate passes exactly when the request carries that
/// header name (case-insensitively) with exactly that value.
pub proof fn lemma_singleton_predicate(
    name: Seq<char>,
    value: Seq<char>,
    headers: Seq<(Seq<char>, Seq<char>)>,
)
    ensures
        spec_predicate_passes(seq![(name, value)], headers) <==> spec_header_value(headers, name)
            == Some(value),
{
    let pred = seq![(name, value)];
    assert(pred[0] == (name, value));
    if spec_header_value(headers, name) == Some(value) {
        assert forall|i: int|
            0 <= i < pred.len() implies spec_header_value(headers, (#[trigger] pred[i]).0) == Some(
            pred[i].1,
        ) by {
            assert(i == 0);
        }
    }
}

/// Appending one more header does not change the value any name looks up
/// to, unless nothing matched before and the new header's name matches.
pub proof fn lemma_header_value_push(
    headers: Seq<(Seq<char>, Seq<char>)>,
    extra: (Seq<char>, Seq<char>),
    name: Seq<char>,
)
    ensures
        spec_header_value(headers.push(extra), name) == (if spec_header_value(headers, name)
            is Some {
            spec_header_value(headers, name)
        } else if spec_name_eq_ci(extra.0, name) {
            Some(extra.1)
        } else {
            None
        }),
    decreases headers.len(),
{
    if headers.len() == 0 {
        assert(headers.push(extra)[0] == extra);
        assert(headers.push(extra).drop_first() =~= Seq::<(Seq<char>, Seq<char>)>::empty());
    } else {
        assert(headers.push(extra)[0] == headers[0]);
        assert(headers.push(extra).drop_first() =~= headers.drop_first().push(extra));
        lemma_header_value_push(headers.drop_first(), extra, name);
    }
}

/// Extra headers whose names the predicate does not mention never block a
/// match: a passing predicate still passes after such a header arrives.
pub proof fn lemma_extra_header_never_blocks(
    pred: Seq<(Seq<char>, Seq<char>)>,
    headers: Seq<(Seq<char>, Seq<char>)>,
    extra: (Seq<char>, Seq<char>),
)
    requires
        spec_predicate_passes(pred, headers),
        forall|i: int| 0 <= i < pred.len() ==> !spec_name_eq_ci(extra.0, (#[trigger] pred[i]).0),
    ensures
        spec_predicate_passes(pred, headers.push(extra)),
{
    assert forall|i: int|
        0 <= i < pred.len() implies spec_header_value(headers.push(extra), (#[trigger] pred[i]).0)
        == Some(pred[i].1) by {
        lemma_header_value_push(headers, extra, pred[i].0);
    }
}

/// Matching is a pure function of the rule list and the request headers:
/// repeated matches of one request against one rule index always select
/// the same rule, because every selection equals `spec_first_match` of the
/// two values and nothing a match reads is mutated by it.
pub proof fn lemma_match_idempotent(
    rules: Seq<RuleCore>,
    headers: Seq<(Seq<char>, Seq<char>)>,
    r1: Option<int>,
    r2: Option<int>,
)
    requires
        r1 == spec_first_match(rules, headers),
        r2 == spec_first_match(rules, headers),
    ensures
        r1 == r2,
{
}

} // verus!
