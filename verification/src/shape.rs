//! The shape-contract validator.
//!
//! A shape contract declares the endpoints an api group must implement.
//! Validation is a strict two-directional check: every declared endpoint
//! must be implemented and every implemented endpoint must be declared.
//! It runs at load time only; a violated contract fails the owning unit
//! with one aggregated message enumerating both diagnostic lists.

use vstd::prelude::*;
use crate::errors::ConfigError;
use crate::seqx::{lemma_filter_elem_of, lemma_filter_empty, lemma_filter_snoc};
use crate::model::{ApiCore, EndpointCore, RuleCore};

verus! {

/// `e` occurs in `list` (structural endpoint equality).
pub open spec fn spec_endpoint_in(list: Seq<EndpointCore>, e: EndpointCore) -> bool {
    exists|i: int| 0 <= i < list.len() && (#[trigger] list[i]).spec_same(e)
}

/// The endpoints of a rule list.
pub open spec fn spec_endpoints_of(rules: Seq<RuleCore>) -> Seq<EndpointCore> {
    rules.map_values(|r: RuleCore| r.endpoint)
}

/// Absence from a list, as a filter predicate.
pub open spec fn not_in(list: Seq<EndpointCore>) -> spec_fn(EndpointCore) -> bool {
    |e: EndpointCore| !spec_endpoint_in(list, e)
}

/// The shape contract holds: mutual coverage in both directions.
pub open spec fn spec_shape_ok(shape: Seq<EndpointCore>, implemented: Seq<EndpointCore>) -> bool {
    &&& forall|i: int| 0 <= i < shape.len() ==> spec_endpoint_in(implemented, #[trigger] shape[i])
    &&& forall|i: int|
        0 <= i < implemented.len() ==> spec_endpoint_in(shape, #[trigger] implemented[i])
}

/// Whether `e` occurs among the endpoints of `rules`.
fn rules_implement(rules: &Vec<RuleCore>, e: &EndpointCore) -> (r: bool)
    ensures
        r == spec_endpoint_in(spec_endpoints_of(rules@), *e),
{
    let n = rules.len();
    let mut k: usize = 0;
    while k < n
        invariant
            n == rules@.len(),
            0 <= k <= n,
            forall|i: int| 0 <= i < k ==> !(#[trigger] spec_endpoints_of(rules@)[i]).spec_same(*e),
        decreases n - k,
    {
        if rules[k].endpoint.same(e) {
            proof {
                assert(spec_endpoints_of(rules@)[k as int].spec_same(*e));
            }
            return true;
        }
        proof {
            assert(spec_endpoints_of(rules@)[k as int] == rules@[k as int].endpoint);
        }
        k = k + 1;
    }
    false
}

/// Whether `e` occurs in a plain endpoint list.
fn shape_contains(shape: &Vec<EndpointCore>, e: &EndpointCore) -> (r: bool)
    ensures
        r == spec_endpoint_in(shape@, *e),
{
    let n = shape.len();
    let mut k: usize = 0;
    while k < n
        invariant
            n == shape@.len(),
            0 <= k <= n,
            forall|i: int| 0 <= i < k ==> !(#[trigger] shape@[i]).spec_same(*e),
        decreases n - k,
    {
        if shape[k].same(e) {
            return true;
        }
        k = k + 1;
    }
    false
}

/// Validates one api group against a shape contract.
///
/// Succeeds exactly when the declared and the implemented endpoints cover
/// each other.  On failure the error carries, in declaration order, the
/// declared endpoints no rule implements and the implemented endpoints the
/// shape does not declare.
pub fn validate_api_with_shape(name: &String, shape: &Vec<EndpointCore>, api: &ApiCore) -> (r:
    Result<(), ConfigError>)
    ensures
        r is Ok <==> spec_shape_ok(shape@, spec_endpoints_of(api.0@)),
        r matches Err(ConfigError::ShapeMismatch { api_name, not_implemented, undeclared }) ==> {
            &&& api_name@ == name@
            &&& not_implemented@ == shape@.filter(not_in(spec_endpoints_of(api.0@)))
            &&& undeclared@ == spec_endpoints_of(api.0@).filter(not_in(shape@))
        },
        r is Err ==> r matches Err(ConfigError::ShapeMismatch { .. }),
{
    let ghost impl_view = spec_endpoints_of(api.0@);
    let mut not_implemented: Vec<EndpointCore> = Vec::new();
    let n = shape.len();
    let mut k: usize = 0;
    proof {
        assert(shape@.take(0) =~= Seq::<EndpointCore>::empty());
        lemma_filter_empty(not_in(impl_view));
        assert(not_implemented@ =~= shape@.take(0).filter(not_in(impl_view)));
    }
    while k < n
        invariant
            n == shape@.len(),
            0 <= k <= n,
            impl_view == spec_endpoints_of(api.0@),
            not_implemented@ == shape@.take(k as int).filter(not_in(impl_view)),
        decreases n - k,
    {
        let found = rules_implement(&api.0, &shape[k]);
        proof {
            assert(shape@.take(k + 1 as int).drop_last() =~= shape@.take(k as int));
            assert(shape@.take(k + 1 as int) =~= shape@.take(k as int).push(shape@[k as int]));
            lemma_filter_snoc(shape@.take(k as int), not_in(impl_view), shape@[k as int]);
        }
        if !found {
            not_implemented.push(shape[k].clone());
        }
        k = k + 1;
    }
    proof {
        assert(shape@.take(n as int) =~= shape@);
    }
    let mut undeclared: Vec<EndpointCore> = Vec::new();
    let m = api.0.len();
    let mut j: usize = 0;
    proof {
        assert(impl_view.take(0) =~= Seq::<EndpointCore>::empty());
        lemma_filter_empty(not_in(shape@));
        assert(undeclared@ =~= impl_view.take(0).filter(not_in(shape@)));
    }
    while j < m
        invariant
            m == api.0@.len(),
            0 <= j <= m,
            impl_view == spec_endpoints_of(api.0@),
            undeclared@ == impl_view.take(j as int).filter(not_in(shape@)),
        decreases m - j,
    {
        let e = &api.0[j].endpoint;
        let found = shape_contains(shape, e);
        proof {
            assert(impl_view[j as int] == api.0@[j as int].endpoint);
            assert(impl_view.take(j + 1 as int) =~= impl_view.take(j as int).push(
                impl_view[j as int],
            ));
            lemma_filter_snoc(impl_view.take(j as int), not_in(shape@), impl_view[j as int]);
        }
        if !found {
            undeclared.push(e.clone());
        }
        j = j + 1;
    }
    proof {
        assert(impl_view.take(m as int) =~= impl_view);
    }
    if not_implemented.len() == 0 && undeclared.len() == 0 {
        proof {
            assert forall|i: int| 0 <= i < shape@.len() implies spec_endpoint_in(
                impl_view,
                #[trigger] shape@[i],
            ) by {
                if !spec_endpoint_in(impl_view, shape@[i]) {
                    Seq::lemma_filter_contains(shape@, not_in(impl_view), i);
                }
            }
            assert forall|i: int| 0 <= i < impl_view.len() implies spec_endpoint_in(
                shape@,
                #[trigger] impl_view[i],
            ) by {
                if !spec_endpoint_in(shape@, impl_view[i]) {
                    Seq::lemma_filter_contains(impl_view, not_in(shape@), i);
                }
            }
        }
        Ok(())
    } else {
        proof {
            if not_implemented@.len() > 0 {
                let e = not_implemented@[0];
                Seq::lemma_filter_pred(shape@, not_in(impl_view), 0);
                lemma_filter_elem_of(shape@, not_in(impl_view), 0);
                let i = choose|i: int| 0 <= i < shape@.len() && shape@[i] == e;
                assert(!spec_endpoint_in(impl_view, shape@[i]));
            } else {
                let e = undeclared@[0];
                Seq::lemma_filter_pred(impl_view, not_in(shape@), 0);
                lemma_filter_elem_of(impl_view, not_in(shape@), 0);
                let i = choose|i: int| 0 <= i < impl_view.len() && impl_view[i] == e;
                assert(!spec_endpoint_in(shape@, impl_view[i]));
            }
        }
        Err(ConfigError::ShapeMismatch { api_name: name.clone(), not_implemented, undeclared })
    }
}

} // verus!
