//! The rule index: maps (method, fully-qualified route) to the ordered
//! list of candidate rules.
//!
//! For the root api set the route key is the endpoint's own path; for each
//! named api set it is `/{name}{path}`.  Rules of all api groups that
//! declare the same key are concatenated in declaration order into one
//! bucket; the order never depends on any hash iteration.

use vstd::prelude::*;
use vstd::string::StringExecFns;
use crate::model::{ApiCore, ApiSetCore, HttpRoute, RuleCore, SystemCore};

verus! {

/// A route key seen abstractly: (method text, fully qualified route text).
pub type RouteKey = (Seq<char>, Seq<char>);

pub open spec fn spec_key_of(hr: HttpRoute) -> RouteKey {
    (hr.method@, hr.route@)
}

/// One declaration entry: a route key and the rule declared under it.
pub open spec fn spec_view_entries(entries: Seq<(HttpRoute, RuleCore)>) -> Seq<
    (RouteKey, RuleCore),
> {
    entries.map_values(|e: (HttpRoute, RuleCore)| (spec_key_of(e.0), e.1))
}

/// Whether an entry belongs to one route key.
pub open spec fn entry_matches(key: RouteKey) -> spec_fn((RouteKey, RuleCore)) -> bool {
    |e: (RouteKey, RuleCore)| e.0 == key
}

/// The rule an entry declares.
pub open spec fn entry_rule() -> spec_fn((RouteKey, RuleCore)) -> RuleCore {
    |e: (RouteKey, RuleCore)| e.1
}

/// The bucket a key resolves to: the rules declared under that key, in
/// declaration order.
pub open spec fn spec_bucket(entries: Seq<(RouteKey, RuleCore)>, key: RouteKey) -> Seq<RuleCore> {
    entries.filter(entry_matches(key)).map_values(entry_rule())
}

/// Splitting the declarations splits every bucket.
pub proof fn lemma_bucket_split(entries: Seq<(RouteKey, RuleCore)>, j: int, key: RouteKey)
    requires
        0 <= j <= entries.len(),
    ensures
        spec_bucket(entries, key) == spec_bucket(entries.take(j), key) + spec_bucket(
            entries.skip(j),
            key,
        ),
{
    assert(entries =~= entries.take(j) + entries.skip(j));
    Seq::filter_distributes_over_add(entries.take(j), entries.skip(j), entry_matches(key));
    assert((entries.take(j).filter(entry_matches(key)) + entries.skip(j).filter(
        entry_matches(key),
    )).map_values(entry_rule()) =~= entries.take(j).filter(entry_matches(key)).map_values(
        entry_rule(),
    ) + entries.skip(j).filter(entry_matches(key)).map_values(entry_rule()));
}

/// A bucket of one entry: the rule itself if the key matches, else nothing.
pub proof fn lemma_bucket_single(e: (RouteKey, RuleCore), key: RouteKey)
    ensures
        e.0 == key ==> spec_bucket(seq![e], key) =~= seq![e.1],
        e.0 != key ==> spec_bucket(seq![e], key) =~= Seq::<RuleCore>::empty(),
{
    reveal(Seq::filter);
    let s = seq![e];
    assert(s.drop_last() =~= Seq::<(RouteKey, RuleCore)>::empty());
    assert(s.drop_last().filter(entry_matches(key)) =~= Seq::<(RouteKey, RuleCore)>::empty());
    assert(s.last() == e);
    if e.0 == key {
        assert(s.filter(entry_matches(key)) =~= seq![e]);
        assert(seq![e].map_values(entry_rule()) =~= seq![e.1]);
    } else {
        assert(s.filter(entry_matches(key)) =~= Seq::<(RouteKey, RuleCore)>::empty());
        assert(Seq::<(RouteKey, RuleCore)>::empty().map_values(entry_rule()) =~= Seq::<
            RuleCore,
        >::empty());
    }
}

/// A key no entry declares has the empty bucket.
pub proof fn lemma_bucket_unmatched_empty(entries: Seq<(RouteKey, RuleCore)>, key: RouteKey)
    requires
        forall|i: int| 0 <= i < entries.len() ==> (#[trigger] entries[i]).0 != key,
    ensures
        spec_bucket(entries, key) =~= Seq::<RuleCore>::empty(),
    decreases entries.len(),
{
    reveal(Seq::filter);
    if entries.len() == 0 {
        assert(entries.filter(entry_matches(key)) =~= Seq::<(RouteKey, RuleCore)>::empty());
        assert(spec_bucket(entries, key) =~= Seq::<RuleCore>::empty());
    } else {
        assert forall|i: int| 0 <= i < entries.drop_last().len() implies (
        #[trigger] entries.drop_last()[i]).0 != key by {
            assert(entries.drop_last()[i] == entries[i]);
        }
        lemma_bucket_unmatched_empty(entries.drop_last(), key);
        assert(entries.last() == entries[entries.len() - 1]);
        assert(entries.filter(entry_matches(key)) == entries.drop_last().filter(
            entry_matches(key),
        ));
        assert(spec_bucket(entries, key) =~= spec_bucket(entries.drop_last(), key));
    }
}

/// The rule index.  The bucket list is append-only during the build and
/// immutable afterwards; keys are pairwise distinct.
#[derive(Debug)]
pub struct RuleIndex {
    pub buckets: Vec<(HttpRoute, Vec<RuleCore>)>,
}

/// A key occurs among the stored buckets.
pub open spec fn spec_contains_key(buckets: Seq<(HttpRoute, Vec<RuleCore>)>, key: RouteKey) -> bool {
    exists|i: int| 0 <= i < buckets.len() && spec_key_of((#[trigger] buckets[i]).0) == key
}

/// The rules stored for a key: the first bucket with that key, else empty.
pub open spec fn spec_lookup_in(buckets: Seq<(HttpRoute, Vec<RuleCore>)>, key: RouteKey) -> Seq<
    RuleCore,
>
    decreases buckets.len(),
{
    if buckets.len() == 0 {
        Seq::empty()
    } else if spec_key_of(buckets[0].0) == key {
        buckets[0].1@
    } else {
        spec_lookup_in(buckets.drop_first(), key)
    }
}

impl RuleIndex {
    /// Bucket keys are pairwise distinct.
    pub open spec fn wf(self) -> bool {
        forall|i: int, j: int|
            0 <= i < j < self.buckets@.len() ==> spec_key_of((#[trigger] self.buckets@[i]).0)
                != spec_key_of((#[trigger] self.buckets@[j]).0)
    }

    /// The rules a key resolves to, empty when the key is unknown.
    pub open spec fn spec_lookup(self, key: RouteKey) -> Seq<RuleCore> {
        spec_lookup_in(self.buckets@, key)
    }

    /// Finds the bucket for (method, route), if any.
    pub fn lookup(&self, method: &String, route: &String) -> (r: Option<&Vec<RuleCore>>)
        ensures
            match r {
                Some(b) => b@ == self.spec_lookup((method@, route@)),
                None => self.spec_lookup((method@, route@)) == Seq::<RuleCore>::empty(),
            },
    {
        let ghost key = (method@, route@);
        let n = self.buckets.len();
        let mut k: usize = 0;
        proof {
            assert(self.buckets@.skip(0) =~= self.buckets@);
        }
        while k < n
            invariant
                key == (method@, route@),
                n == self.buckets@.len(),
                0 <= k <= n,
                spec_lookup_in(self.buckets@, key) == spec_lookup_in(
                    self.buckets@.skip(k as int),
                    key,
                ),
            decreases n - k,
        {
            proof {
                assert(self.buckets@.skip(k as int)[0] == self.buckets@[k as int]);
            }
            if self.buckets[k].0.matches_parts(method, route) {
                proof {
                    assert(spec_key_of(self.buckets@[k as int].0) == key);
                    assert(spec_lookup_in(self.buckets@.skip(k as int), key) == self.buckets@[
                        k as int].1@);
                }
                return Some(&self.buckets[k].1);
            }
            proof {
                assert(spec_key_of(self.buckets@[k as int].0) != key);
                assert(self.buckets@.skip(k as int).drop_first() =~= self.buckets@.skip(
                    k + 1 as int,
                ));
                assert(spec_lookup_in(self.buckets@.skip(k as int), key) == spec_lookup_in(
                    self.buckets@.skip(k + 1 as int),
                    key,
                ));
            }
            k = k + 1;
        }
        proof {
            assert(self.buckets@.skip(n as int).len() == 0);
        }
        None
    }

    /// Whether a key already has a bucket.
    fn contains_key(&self, key: &HttpRoute) -> (r: bool)
        ensures
            r == spec_contains_key(self.buckets@, spec_key_of(*key)),
    {
        let n = self.buckets.len();
        let mut k: usize = 0;
        while k < n
            invariant
                n == self.buckets@.len(),
                0 <= k <= n,
                forall|i: int|
                    0 <= i < k ==> spec_key_of((#[trigger] self.buckets@[i]).0) != spec_key_of(
                        *key,
                    ),
            decreases n - k,
        {
            if self.buckets[k].0.same(key) {
                return true;
            }
            k = k + 1;
        }
        false
    }
}

/// Appending a bucket leaves every stored key's lookup unchanged; a key
/// that had no bucket resolves to the new bucket exactly when it carries
/// that key.
proof fn lemma_lookup_push(
    buckets: Seq<(HttpRoute, Vec<RuleCore>)>,
    b: (HttpRoute, Vec<RuleCore>),
    key: RouteKey,
)
    ensures
        spec_contains_key(buckets, key) ==> spec_lookup_in(buckets.push(b), key) == spec_lookup_in(
            buckets,
            key,
        ),
        !spec_contains_key(buckets, key) && spec_key_of(b.0) == key ==> spec_lookup_in(
            buckets.push(b),
            key,
        ) == b.1@,
        !spec_contains_key(buckets, key) && spec_key_of(b.0) != key ==> spec_lookup_in(
            buckets.push(b),
            key,
        ) == Seq::<RuleCore>::empty(),
    decreases buckets.len(),
{
    if buckets.len() == 0 {
        assert(buckets.push(b)[0] == b);
        assert(buckets.push(b).drop_first() =~= Seq::<(HttpRoute, Vec<RuleCore>)>::empty());
        assert(spec_lookup_in(Seq::<(HttpRoute, Vec<RuleCore>)>::empty(), key) == Seq::<
            RuleCore,
        >::empty());
    } else {
        assert(buckets.push(b)[0] == buckets[0]);
        assert(buckets.push(b).drop_first() =~= buckets.drop_first().push(b));
        lemma_lookup_push(buckets.drop_first(), b, key);
        if spec_contains_key(buckets, key) && spec_key_of(buckets[0].0) != key {
            let i = choose|i: int|
                0 <= i < buckets.len() && spec_key_of((#[trigger] buckets[i]).0) == key;
            assert(buckets.drop_first()[i - 1] == buckets[i]);
            assert(spec_contains_key(buckets.drop_first(), key));
        }
        if !spec_contains_key(buckets, key) {
            assert forall|i: int| 0 <= i < buckets.drop_first().len() implies spec_key_of(
                (#[trigger] buckets.drop_first()[i]).0,
            ) != key by {
                assert(buckets.drop_first()[i] == buckets[i + 1]);
            }
        }
    }
}

/// A key no bucket carries resolves to no rules.
proof fn lemma_lookup_absent(buckets: Seq<(HttpRoute, Vec<RuleCore>)>, key: RouteKey)
    requires
        forall|i: int| 0 <= i < buckets.len() ==> spec_key_of((#[trigger] buckets[i]).0) != key,
    ensures
        spec_lookup_in(buckets, key) == Seq::<RuleCore>::empty(),
    decreases buckets.len(),
{
    if buckets.len() > 0 {
        assert forall|i: int| 0 <= i < buckets.drop_first().len() implies spec_key_of(
            (#[trigger] buckets.drop_first()[i]).0,
        ) != key by {
            assert(buckets.drop_first()[i] == buckets[i + 1]);
        }
        lemma_lookup_absent(buckets.drop_first(), key);
    }
}

/// One entry's bucket contribution, on both sides of a concatenation.
proof fn lemma_bucket_cons(e: (RouteKey, RuleCore), tail: Seq<(RouteKey, RuleCore)>, key: RouteKey)
    ensures
        e.0 == key ==> spec_bucket(seq![e] + tail, key) =~= seq![e.1] + spec_bucket(tail, key),
        e.0 != key ==> spec_bucket(seq![e] + tail, key) =~= spec_bucket(tail, key),
{
    lemma_bucket_single(e, key);
    Seq::filter_distributes_over_add(seq![e], tail, entry_matches(key));
    assert((seq![e].filter(entry_matches(key)) + tail.filter(entry_matches(key))).map_values(
        entry_rule(),
    ) =~= seq![e].filter(entry_matches(key)).map_values(entry_rule()) + tail.filter(
        entry_matches(key),
    ).map_values(entry_rule()));
    if e.0 == key {
        assert(seq![e].filter(entry_matches(key)).map_values(entry_rule()) =~= seq![e.1]);
    } else {
        assert(seq![e].filter(entry_matches(key)).map_values(entry_rule()) =~= Seq::<
            RuleCore,
        >::empty());
        assert(Seq::<RuleCore>::empty() + spec_bucket(tail, key) =~= spec_bucket(tail, key));
    }
}

/// Groups declaration entries into an index, consuming them in order.
///
/// Every key's bucket holds exactly the rules declared under that key, in
/// declaration order.
pub fn build_index(entries: Vec<(HttpRoute, RuleCore)>) -> (r: RuleIndex)
    ensures
        r.wf(),
        forall|key: RouteKey|
            #[trigger] r.spec_lookup(key) == spec_bucket(spec_view_entries(entries@), key),
{
    let ghost orig = spec_view_entries(entries@);
    let mut rest = entries;
    let mut idx = RuleIndex { buckets: Vec::new() };
    proof {
        assert(spec_view_entries(rest@) =~= orig);
    }
    while rest.len() > 0
        invariant
            idx.wf(),
            forall|key: RouteKey|
                spec_contains_key(idx.buckets@, key) ==> #[trigger] spec_lookup_in(
                    idx.buckets@,
                    key,
                ) == spec_bucket(orig, key),
            forall|key: RouteKey|
                spec_contains_key(idx.buckets@, key) ==> #[trigger] spec_bucket(
                    spec_view_entries(rest@),
                    key,
                ) == Seq::<RuleCore>::empty(),
            forall|key: RouteKey|
                !spec_contains_key(idx.buckets@, key) ==> #[trigger] spec_bucket(orig, key)
                    == spec_bucket(spec_view_entries(rest@), key),
        decreases rest.len(),
    {
        let ghost rest0 = spec_view_entries(rest@);
        let (key, first) = rest.remove(0);
        let ghost rest1 = spec_view_entries(rest@);
        let ghost kview = spec_key_of(key);
        proof {
            assert(rest1 =~= rest0.drop_first());
            assert(rest0[0] == (kview, first));
            assert(rest0 =~= seq![rest0[0]] + rest1);
            lemma_bucket_cons(rest0[0], rest1, kview);
            assert(spec_bucket(rest0, kview) =~= seq![first] + spec_bucket(rest1, kview));
            // The key cannot already be stored: its bucket over `rest`
            // would then be empty, yet the first entry belongs to it.
            if spec_contains_key(idx.buckets@, kview) {
                assert(spec_bucket(rest0, kview).len() == 0);
                assert(spec_bucket(rest0, kview)[0] == first);
            }
            assert(!spec_contains_key(idx.buckets@, kview));
            // Other keys' buckets in the remainder are unchanged.
            assert forall|k2: RouteKey| k2 != kview implies spec_bucket(rest1, k2) == spec_bucket(
                rest0,
                k2,
            ) by {
                lemma_bucket_cons(rest0[0], rest1, k2);
            }
        }
        let mut bucket: Vec<RuleCore> = Vec::new();
        bucket.push(first);
        let mut j: usize = 0;
        let ghost rest_len1 = rest@.len();
        proof {
            assert(rest1.skip(0) =~= rest1);
            assert(rest1.take(0) =~= Seq::<(RouteKey, RuleCore)>::empty());
            lemma_bucket_unmatched_empty(rest1.take(0), kview);
            assert(bucket@ =~= seq![first]);
            assert(spec_bucket(orig, kview) == spec_bucket(rest0, kview));
            assert(spec_bucket(orig, kview) =~= bucket@ + spec_bucket(rest1.skip(0), kview));
        }
        while j < rest.len()
            invariant
                0 <= j <= rest@.len(),
                rest@.len() <= rest_len1,
                spec_key_of(key) == kview,
                spec_bucket(orig, kview) =~= bucket@ + spec_bucket(
                    spec_view_entries(rest@).skip(j as int),
                    kview,
                ),
                spec_bucket(spec_view_entries(rest@).take(j as int), kview) == Seq::<
                    RuleCore,
                >::empty(),
                forall|k2: RouteKey|
                    k2 != kview ==> #[trigger] spec_bucket(spec_view_entries(rest@), k2)
                        == spec_bucket(rest1, k2),
            decreases rest@.len() - j,
        {
            let ghost ve = spec_view_entries(rest@);
            let ghost e = ve[j as int];
            proof {
                assert(e == (spec_key_of(rest@[j as int].0), rest@[j as int].1));
                assert(ve.skip(j as int)[0] == e);
                assert(ve.skip(j as int) =~= seq![e] + ve.skip(j + 1 as int));
                assert(ve.take(j + 1 as int) =~= ve.take(j as int) + seq![e]);
            }
            if rest[j].0.same(&key) {
                let ghost bucket_old = bucket@;
                let (_, r) = rest.remove(j);
                bucket.push(r);
                proof {
                    let ghost ve2 = spec_view_entries(rest@);
                    assert(ve2 =~= ve.take(j as int) + ve.skip(j + 1 as int));
                    assert(e.0 == kview);
                    assert(e.1 == r);
                    lemma_bucket_cons(e, ve.skip(j + 1 as int), kview);
                    assert(spec_bucket(ve.skip(j as int), kview) =~= seq![r] + spec_bucket(
                        ve.skip(j + 1 as int),
                        kview,
                    ));
                    assert(bucket@ =~= bucket_old + seq![r]);
                    assert(ve2.skip(j as int) =~= ve.skip(j + 1 as int));
                    assert(spec_bucket(orig, kview) =~= bucket@ + spec_bucket(
                        ve2.skip(j as int),
                        kview,
                    ));
                    assert(ve2.take(j as int) =~= ve.take(j as int));
                    // Other keys keep their buckets: the removed entry is
                    // keyed by `kview`.
                    assert forall|k2: RouteKey| k2 != kview implies spec_bucket(ve2, k2)
                        == spec_bucket(rest1, k2) by {
                        lemma_bucket_split(ve, j as int, k2);
                        lemma_bucket_cons(e, ve.skip(j + 1 as int), k2);
                        lemma_bucket_split(ve2, j as int, k2);
                        assert(spec_bucket(ve2, k2) =~= spec_bucket(ve.take(j as int), k2)
                            + spec_bucket(ve.skip(j + 1 as int), k2));
                        assert(spec_bucket(ve, k2) =~= spec_bucket(ve.take(j as int), k2)
                            + spec_bucket(ve.skip(j + 1 as int), k2));
                    }
                }
            } else {
                proof {
                    assert(e.0 != kview);
                    lemma_bucket_cons(e, ve.skip(j + 1 as int), kview);
                    assert(spec_bucket(ve.skip(j as int), kview) =~= spec_bucket(
                        ve.skip(j + 1 as int),
                        kview,
                    ));
                    lemma_bucket_split(ve.take(j + 1 as int), j as int, kview);
                    assert(ve.take(j + 1 as int).take(j as int) =~= ve.take(j as int));
                    assert(ve.take(j + 1 as int).skip(j as int) =~= seq![e]);
                    lemma_bucket_single(e, kview);
                    assert(spec_bucket(ve.take(j + 1 as int), kview) =~= Seq::<
                        RuleCore,
                    >::empty());
                }
                j = j + 1;
            }
        }
        proof {
            let ghost ve_end = spec_view_entries(rest@);
            assert(ve_end.skip(j as int) =~= Seq::<(RouteKey, RuleCore)>::empty());
            assert(spec_bucket(Seq::<(RouteKey, RuleCore)>::empty(), kview) =~= Seq::<
                RuleCore,
            >::empty());
            assert(bucket@ + Seq::<RuleCore>::empty() =~= bucket@);
            assert(spec_bucket(orig, kview) =~= bucket@);
            assert(ve_end.take(j as int) =~= ve_end);
            assert(spec_bucket(ve_end, kview) == Seq::<RuleCore>::empty());
        }
        let ghost old_buckets = idx.buckets@;
        idx.buckets.push((key, bucket));
        proof {
            let b = (key, bucket);
            assert(idx.buckets@ =~= old_buckets.push(b));
            // Distinct keys are preserved: the new key was not stored.
            assert forall|i: int, j2: int|
                0 <= i < j2 < idx.buckets@.len() implies spec_key_of(
                (#[trigger] idx.buckets@[i]).0,
            ) != spec_key_of((#[trigger] idx.buckets@[j2]).0) by {
                if j2 == old_buckets.len() {
                    assert(idx.buckets@[i] == old_buckets[i]);
                    if spec_key_of(old_buckets[i].0) == kview {
                        assert(spec_contains_key(old_buckets, kview));
                    }
                } else {
                    assert(idx.buckets@[i] == old_buckets[i]);
                    assert(idx.buckets@[j2] == old_buckets[j2]);
                }
            }
            assert forall|key2: RouteKey| spec_contains_key(idx.buckets@, key2) implies (
            #[trigger] spec_lookup_in(idx.buckets@, key2)) == spec_bucket(orig, key2) by {
                lemma_lookup_push(old_buckets, b, key2);
                let i = choose|i: int|
                    0 <= i < idx.buckets@.len() && spec_key_of((#[trigger] idx.buckets@[i]).0)
                        == key2;
                if i < old_buckets.len() {
                    assert(idx.buckets@[i] == old_buckets[i]);
                    assert(spec_contains_key(old_buckets, key2));
                } else {
                    assert(key2 == kview);
                    if spec_contains_key(old_buckets, kview) {
                        assert(false);
                    }
                }
            }
            assert forall|key2: RouteKey| spec_contains_key(idx.buckets@, key2) implies (
            #[trigger] spec_bucket(spec_view_entries(rest@), key2)) == Seq::<RuleCore>::empty() by {
                let i = choose|i: int|
                    0 <= i < idx.buckets@.len() && spec_key_of((#[trigger] idx.buckets@[i]).0)
                        == key2;
                if i < old_buckets.len() {
                    assert(idx.buckets@[i] == old_buckets[i]);
                    assert(spec_contains_key(old_buckets, key2));
                    assert(spec_key_of(old_buckets[i].0) != kview);
                    assert(spec_bucket(spec_view_entries(rest@), key2) == spec_bucket(
                        rest1,
                        key2,
                    ));
                    assert(spec_bucket(rest1, key2) == spec_bucket(rest0, key2));
                } else {
                    assert(key2 == kview);
                }
            }
            assert forall|key2: RouteKey| !spec_contains_key(idx.buckets@, key2) implies (
            #[trigger] spec_bucket(orig, key2)) == spec_bucket(spec_view_entries(rest@), key2) by {
                assert(idx.buckets@[old_buckets.len() as int] == b);
                assert(key2 != kview);
                if spec_contains_key(old_buckets, key2) {
                    let i = choose|i: int|
                        0 <= i < old_buckets.len() && spec_key_of((#[trigger] old_buckets[i]).0)
                            == key2;
                    assert(idx.buckets@[i] == old_buckets[i]);
                }
                assert(spec_bucket(orig, key2) == spec_bucket(rest0, key2));
                assert(spec_bucket(rest0, key2) == spec_bucket(rest1, key2));
                assert(spec_bucket(rest1, key2) == spec_bucket(spec_view_entries(rest@), key2));
            }
        }
    }
    proof {
        assert(spec_view_entries(rest@) =~= Seq::<(RouteKey, RuleCore)>::empty());
        assert forall|key: RouteKey| #[trigger] spec_lookup_in(idx.buckets@, key) == spec_bucket(
            orig,
            key,
        ) by {
            if spec_contains_key(idx.buckets@, key) {
            } else {
                assert(spec_bucket(orig, key) == spec_bucket(spec_view_entries(rest@), key));
                assert(spec_bucket(spec_view_entries(rest@), key) =~= Seq::<RuleCore>::empty());
                assert forall|i: int| 0 <= i < idx.buckets@.len() implies spec_key_of(
                    (#[trigger] idx.buckets@[i]).0,
                ) != key by {
                    if spec_key_of(idx.buckets@[i].0) == key {
                        assert(spec_contains_key(idx.buckets@, key));
                    }
                }
                lemma_lookup_absent(idx.buckets@, key);
            }
        }
    }
    idx
}

/// The declaration entries of one api group: each rule keyed by its
/// method and by `prefix` glued to its route.
pub open spec fn spec_api_entries(rules: Seq<RuleCore>, prefix: Seq<char>) -> Seq<
    (RouteKey, RuleCore),
> {
    rules.map_values(|r: RuleCore| (((r.endpoint.method@, prefix + r.endpoint.route@)), r))
}

/// The declaration entries of a list of api groups, in order.
pub open spec fn spec_apis_entries(apis: Seq<ApiCore>, prefix: Seq<char>) -> Seq<
    (RouteKey, RuleCore),
>
    decreases apis.len(),
{
    if apis.len() == 0 {
        Seq::empty()
    } else {
        spec_api_entries(apis[0].0@, prefix) + spec_apis_entries(apis.drop_first(), prefix)
    }
}

/// The declaration entries of the named api sets, in order; each set's
/// routes are prefixed with `/{name}`.
pub open spec fn spec_sets_entries(sets: Seq<ApiSetCore>) -> Seq<(RouteKey, RuleCore)>
    decreases sets.len(),
{
    if sets.len() == 0 {
        Seq::empty()
    } else {
        spec_apis_entries(sets[0].apis@, "/"@ + sets[0].name@) + spec_sets_entries(
            sets.drop_first(),
        )
    }
}

/// Every declaration entry of a system: the root api set's rules keyed by
/// their own routes, then the named api sets' rules, in declaration order.
pub open spec fn spec_system_entries(sys: SystemCore) -> Seq<(RouteKey, RuleCore)> {
    spec_apis_entries(sys.root_api_set.apis@, Seq::empty()) + spec_sets_entries(sys.api_sets@)
}

/// Appending one group appends its entries.
proof fn lemma_apis_entries_snoc(apis: Seq<ApiCore>, a: ApiCore, prefix: Seq<char>)
    ensures
        spec_apis_entries(apis.push(a), prefix) == spec_apis_entries(apis, prefix)
            + spec_api_entries(a.0@, prefix),
    decreases apis.len(),
{
    if apis.len() == 0 {
        assert(apis.push(a)[0] == a);
        assert(apis.push(a).drop_first() =~= Seq::<ApiCore>::empty());
        assert(spec_apis_entries(apis.push(a).drop_first(), prefix) == Seq::<
            (RouteKey, RuleCore),
        >::empty());
        assert(spec_api_entries(a.0@, prefix) + Seq::<(RouteKey, RuleCore)>::empty()
            =~= spec_api_entries(a.0@, prefix));
        assert(Seq::<(RouteKey, RuleCore)>::empty() + spec_api_entries(a.0@, prefix)
            =~= spec_api_entries(a.0@, prefix));
    } else {
        assert(apis.push(a)[0] == apis[0]);
        assert(apis.push(a).drop_first() =~= apis.drop_first().push(a));
        lemma_apis_entries_snoc(apis.drop_first(), a, prefix);
        assert((spec_api_entries(apis[0].0@, prefix) + spec_apis_entries(apis.drop_first(), prefix))
            + spec_api_entries(a.0@, prefix) =~= spec_api_entries(apis[0].0@, prefix) + (
        spec_apis_entries(apis.drop_first(), prefix) + spec_api_entries(a.0@, prefix)));
    }
}

/// Appending one named set appends its entries.
proof fn lemma_sets_entries_snoc(sets: Seq<ApiSetCore>, s: ApiSetCore)
    ensures
        spec_sets_entries(sets.push(s)) == spec_sets_entries(sets) + spec_apis_entries(
            s.apis@,
            "/"@ + s.name@,
        ),
    decreases sets.len(),
{
    if sets.len() == 0 {
        assert(sets.push(s)[0] == s);
        assert(sets.push(s).drop_first() =~= Seq::<ApiSetCore>::empty());
        assert(spec_sets_entries(sets.push(s).drop_first()) == Seq::<(RouteKey, RuleCore)>::empty());
        assert(spec_apis_entries(s.apis@, "/"@ + s.name@) + Seq::<(RouteKey, RuleCore)>::empty()
            =~= spec_apis_entries(s.apis@, "/"@ + s.name@));
        assert(Seq::<(RouteKey, RuleCore)>::empty() + spec_apis_entries(s.apis@, "/"@ + s.name@)
            =~= spec_apis_entries(s.apis@, "/"@ + s.name@));
    } else {
        assert(sets.push(s)[0] == sets[0]);
        assert(sets.push(s).drop_first() =~= sets.drop_first().push(s));
        lemma_sets_entries_snoc(sets.drop_first(), s);
        assert((spec_apis_entries(sets[0].apis@, "/"@ + sets[0].name@) + spec_sets_entries(
            sets.drop_first(),
        )) + spec_apis_entries(s.apis@, "/"@ + s.name@) =~= spec_apis_entries(
            sets[0].apis@,
            "/"@ + sets[0].name@,
        ) + (spec_sets_entries(sets.drop_first()) + spec_apis_entries(s.apis@, "/"@ + s.name@)));
    }
}

/// Moves one api group's rules into the entry list, keying each rule by
/// its method and the prefixed route.
fn push_api_entries(entries: &mut Vec<(HttpRoute, RuleCore)>, api: ApiCore, prefix: &String)
    ensures
        spec_view_entries(final(entries)@) == spec_view_entries(old(entries)@) + spec_api_entries(
            api.0@,
            prefix@,
        ),
{
    let ghost rules0 = api.0@;
    let ghost base = spec_view_entries(old(entries)@);
    let mut rules = api.0;
    let ghost mut k: int = 0;
    proof {
        assert(rules0.take(0) =~= Seq::<RuleCore>::empty());
        assert(spec_api_entries(rules0.take(0), prefix@) =~= Seq::<(RouteKey, RuleCore)>::empty());
        assert(base + spec_api_entries(rules0.take(0), prefix@) =~= base);
        assert(rules0.skip(0) =~= rules0);
    }
    while rules.len() > 0
        invariant
            base == spec_view_entries(old(entries)@),
            0 <= k <= rules0.len(),
            rules@ == rules0.skip(k),
            spec_view_entries(entries@) == base + spec_api_entries(rules0.take(k), prefix@),
        decreases rules.len(),
    {
        let r = rules.remove(0);
        proof {
            assert(rules0.skip(k)[0] == rules0[k]);
            assert(r == rules0[k]);
            assert(rules0.skip(k).drop_first() =~= rules0.skip(k + 1 as int));
        }
        let mut route = prefix.clone();
        route.append(r.endpoint.route.as_str());
        let hr = HttpRoute { method: r.endpoint.method.clone(), route };
        let ghost before = spec_view_entries(entries@);
        entries.push((hr, r));
        proof {
            assert(spec_view_entries(entries@) =~= before.push(
                ((rules0[k].endpoint.method@, prefix@ + rules0[k].endpoint.route@),
                rules0[k]),
            ));
            assert(rules0.take(k + 1 as int) =~= rules0.take(k).push(rules0[k]));
            assert(spec_api_entries(rules0.take(k + 1 as int), prefix@) =~= spec_api_entries(
                rules0.take(k),
                prefix@,
            ).push(
                ((rules0[k].endpoint.method@, prefix@ + rules0[k].endpoint.route@),
                rules0[k]),
            ));
            assert(spec_view_entries(entries@) =~= base + spec_api_entries(
                rules0.take(k + 1 as int),
                prefix@,
            ));
        }
        proof {
            k = k + 1;
        }
    }
    proof {
        assert(rules0.take(k) =~= rules0);
    }
}

/// Moves a list of api groups' rules into the entry list, in order.
fn push_apis_entries(entries: &mut Vec<(HttpRoute, RuleCore)>, apis: Vec<ApiCore>, prefix: &String)
    ensures
        spec_view_entries(final(entries)@) == spec_view_entries(old(entries)@) + spec_apis_entries(
            apis@,
            prefix@,
        ),
{
    let ghost apis0 = apis@;
    let ghost base = spec_view_entries(old(entries)@);
    let mut rest = apis;
    let ghost mut k: int = 0;
    proof {
        assert(apis0.take(0) =~= Seq::<ApiCore>::empty());
        assert(spec_apis_entries(apis0.take(0), prefix@) == Seq::<(RouteKey, RuleCore)>::empty());
        assert(base + spec_apis_entries(apis0.take(0), prefix@) =~= base);
        assert(apis0.skip(0) =~= apis0);
    }
    while rest.len() > 0
        invariant
            base == spec_view_entries(old(entries)@),
            0 <= k <= apis0.len(),
            rest@ == apis0.skip(k),
            spec_view_entries(entries@) == base + spec_apis_entries(apis0.take(k), prefix@),
        decreases rest.len(),
    {
        let a = rest.remove(0);
        proof {
            assert(apis0.skip(k)[0] == apis0[k]);
            assert(a == apis0[k]);
            assert(apis0.skip(k).drop_first() =~= apis0.skip(k + 1 as int));
        }
        push_api_entries(entries, a, prefix);
        proof {
            assert(apis0.take(k + 1 as int) =~= apis0.take(k).push(apis0[k]));
            lemma_apis_entries_snoc(apis0.take(k), apis0[k], prefix@);
            assert((base + spec_apis_entries(apis0.take(k), prefix@)) + spec_api_entries(
                apis0[k].0@,
                prefix@,
            ) =~= base + (spec_apis_entries(apis0.take(k), prefix@) + spec_api_entries(
                apis0[k].0@,
                prefix@,
            )));
        }
        proof {
            k = k + 1;
        }
    }
    proof {
        assert(apis0.take(k) =~= apis0);
    }
}

impl SystemCore {
    /// Builds the rule index of this system: for the root api set the
    /// route key is the endpoint's own path, for each named api set it is
    /// `/{name}{path}`; every bucket holds the rules declared under its
    /// key in declaration order, merged across api groups.
    pub fn generate_rules_map(self) -> (r: RuleIndex)
        ensures
            r.wf(),
            forall|key: RouteKey|
                #[trigger] r.spec_lookup(key) == spec_bucket(spec_system_entries(self), key),
    {
        let SystemCore { name: _, root_api_set, api_sets } = self;
        let mut entries: Vec<(HttpRoute, RuleCore)> = Vec::new();
        let root_prefix = String::new();
        proof {
            assert(root_prefix@ =~= Seq::<char>::empty());
            assert(spec_view_entries(entries@) =~= Seq::<(RouteKey, RuleCore)>::empty());
        }
        push_apis_entries(&mut entries, root_api_set.apis, &root_prefix);
        let ghost root_entries = spec_apis_entries(self.root_api_set.apis@, Seq::empty());
        proof {
            assert(Seq::<(RouteKey, RuleCore)>::empty() + spec_apis_entries(
                self.root_api_set.apis@,
                root_prefix@,
            ) =~= spec_apis_entries(self.root_api_set.apis@, root_prefix@));
            assert(spec_view_entries(entries@) == root_entries);
        }
        let ghost sets0 = self.api_sets@;
        let mut rest = api_sets;
        let ghost mut k: int = 0;
        proof {
            assert(sets0.take(0) =~= Seq::<ApiSetCore>::empty());
            assert(spec_sets_entries(sets0.take(0)) == Seq::<(RouteKey, RuleCore)>::empty());
            assert(root_entries + spec_sets_entries(sets0.take(0)) =~= root_entries);
            assert(sets0.skip(0) =~= sets0);
        }
        while rest.len() > 0
            invariant
                root_entries == spec_apis_entries(self.root_api_set.apis@, Seq::empty()),
                0 <= k <= sets0.len(),
                rest@ == sets0.skip(k),
                spec_view_entries(entries@) == root_entries + spec_sets_entries(
                    sets0.take(k),
                ),
            decreases rest.len(),
        {
            let s = rest.remove(0);
            proof {
                assert(sets0.skip(k)[0] == sets0[k]);
                assert(s == sets0[k]);
                assert(sets0.skip(k).drop_first() =~= sets0.skip(k + 1 as int));
            }
            let mut prefix = String::from_str("/");
            prefix.append(s.name.as_str());
            proof {
                assert(prefix@ == "/"@ + sets0[k].name@);
            }
            push_apis_entries(&mut entries, s.apis, &prefix);
            proof {
                assert(sets0.take(k + 1 as int) =~= sets0.take(k).push(sets0[k]));
                lemma_sets_entries_snoc(sets0.take(k), sets0[k]);
                assert((root_entries + spec_sets_entries(sets0.take(k)))
                    + spec_apis_entries(sets0[k].apis@, "/"@ + sets0[k].name@)
                    =~= root_entries + (spec_sets_entries(sets0.take(k))
                    + spec_apis_entries(sets0[k].apis@, "/"@ + sets0[k].name@)));
            }
            proof {
                k = k + 1;
            }
        }
        proof {
            assert(sets0.take(k) =~= sets0);
            assert(spec_view_entries(entries@) == spec_system_entries(self));
        }
        build_index(entries)
    }
}

/// Two indexes built from the same configuration resolve every key to the
/// same bucket: rule order within a bucket is fixed by declaration order
/// and survives rebuilds and restarts.
pub proof fn lemma_index_deterministic(sys: SystemCore, r1: RuleIndex, r2: RuleIndex)
    requires
        forall|key: RouteKey|
            #[trigger] r1.spec_lookup(key) == spec_bucket(spec_system_entries(sys), key),
        forall|key: RouteKey|
            #[trigger] r2.spec_lookup(key) == spec_bucket(spec_system_entries(sys), key),
    ensures
        forall|key: RouteKey| #[trigger] r1.spec_lookup(key) == r2.spec_lookup(key),
{
}

/// A route key that no rule of the system declares resolves to the empty
/// bucket, where no request can match: the 404 terminal state.
pub proof fn lemma_unconfigured_route_not_found(
    sys: SystemCore,
    index: RuleIndex,
    key: RouteKey,
    headers: Seq<(Seq<char>, Seq<char>)>,
)
    requires
        forall|key2: RouteKey|
            #[trigger] index.spec_lookup(key2) == spec_bucket(spec_system_entries(sys), key2),
        forall|i: int|
            0 <= i < spec_system_entries(sys).len() ==> (#[trigger] spec_system_entries(sys)[i]).0
                != key,
    ensures
        index.spec_lookup(key) == Seq::<RuleCore>::empty(),
        crate::matcher::spec_first_match(index.spec_lookup(key), headers) is None,
{
    lemma_bucket_unmatched_empty(spec_system_entries(sys), key);
}

} // verus!
