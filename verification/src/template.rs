//! Response-body templates: compiled once at load time, classified by the
//! request facets they reference.
//!
//! A template may reference five namespaces: `headers`, `url.query`,
//! `url.path`, `body.json`, `body.text`.  One flag per namespace records
//! whether any referenced parameter name starts with that prefix; at
//! request time only the flagged facets are extracted.  Compilation is
//! pinned to the engine's parse: the result is `Plain` exactly for a
//! single-raw-text parse, and a templated result's flags classify the
//! parse's referenced parameter names.

use vstd::prelude::*;
use vstd::multiset::Multiset;
use crate::hb::{
    el_param_names, el_parts, el_raw_string, el_size, els_names, els_size, hb_new_registry,
    hb_parses, hb_param_names, hb_raw_text, hb_register_template, hb_single_raw, hb_stored,
    hb_template_elements,
};
use crate::strings::{starts_with_chars, str_starts_with};
use handlebars::template::TemplateElement;

verus! {

/// One flag per template-variable namespace: true if any referenced
/// parameter name starts with that namespace's prefix.
#[derive(Clone, Copy, Debug, PartialEq, Eq, Structural)]
pub struct HasVariables {
    pub has_headers: bool,
    pub has_url_query: bool,
    pub has_url_path: bool,
    pub has_body_json: bool,
    pub has_body_text: bool,
}

/// True if some name in `names` starts with `prefix`.
pub open spec fn spec_any_prefixed(names: Seq<Seq<char>>, prefix: Seq<char>) -> bool {
    exists|i: int| 0 <= i < names.len() && starts_with_chars(#[trigger] names[i], prefix)
}

/// The classification of a list of referenced parameter names into the
/// five namespace flags.
pub open spec fn spec_classify(names: Seq<Seq<char>>) -> HasVariables {
    HasVariables {
        has_headers: spec_any_prefixed(names, "headers"@),
        has_url_query: spec_any_prefixed(names, "url.query"@),
        has_url_path: spec_any_prefixed(names, "url.path"@),
        has_body_json: spec_any_prefixed(names, "body.json"@),
        has_body_text: spec_any_prefixed(names, "body.text"@),
    }
}

/// Classifies referenced parameter names against the five namespaces.
pub fn classify_names(names: &Vec<String>) -> (r: HasVariables)
    ensures
        r == spec_classify(names.deep_view()),
{
    let mut r = HasVariables {
        has_headers: false,
        has_url_query: false,
        has_url_path: false,
        has_body_json: false,
        has_body_text: false,
    };
    let n = names.len();
    let mut k: usize = 0;
    while k < n
        invariant
            n == names@.len(),
            0 <= k <= n,
            r.has_headers == spec_any_prefixed(names.deep_view().take(k as int), "headers"@),
            r.has_url_query == spec_any_prefixed(names.deep_view().take(k as int), "url.query"@),
            r.has_url_path == spec_any_prefixed(names.deep_view().take(k as int), "url.path"@),
            r.has_body_json == spec_any_prefixed(names.deep_view().take(k as int), "body.json"@),
            r.has_body_text == spec_any_prefixed(names.deep_view().take(k as int), "body.text"@),
        decreases n - k,
    {
        let name = &names[k];
        proof {
            assert(names.deep_view()[k as int] == name@);
            assert(names.deep_view().take(k + 1 as int).drop_last() =~= names.deep_view().take(
                k as int,
            ));
            assert(names.deep_view().take(k + 1 as int).last() == name@);
        }
        let ghost prev = names.deep_view().take(k as int);
        let ghost now = names.deep_view().take(k + 1 as int);
        proof {
            assert forall|p: Seq<char>| spec_any_prefixed(now, p) == (spec_any_prefixed(prev, p)
                || starts_with_chars(name@, p)) by {
                if spec_any_prefixed(prev, p) {
                    let i = choose|i: int|
                        0 <= i < prev.len() && starts_with_chars(#[trigger] prev[i], p);
                    assert(now[i] == prev[i]);
                }
                if starts_with_chars(name@, p) {
                    assert(now[k as int] == name@);
                }
                if spec_any_prefixed(now, p) {
                    let i = choose|i: int|
                        0 <= i < now.len() && starts_with_chars(#[trigger] now[i], p);
                    if i < k {
                        assert(prev[i] == now[i]);
                    }
                }
            }
        }
        if str_starts_with(name.as_str(), "headers") {
            r.has_headers = true;
        }
        if str_starts_with(name.as_str(), "url.query") {
            r.has_url_query = true;
        }
        if str_starts_with(name.as_str(), "url.path") {
            r.has_url_path = true;
        }
        if str_starts_with(name.as_str(), "body.json") {
            r.has_body_json = true;
        }
        if str_starts_with(name.as_str(), "body.text") {
            r.has_body_text = true;
        }
        k = k + 1;
    }
    proof {
        assert(names.deep_view().take(n as int) =~= names.deep_view());
    }
    r
}

/// Classification of referenced parameter names into the namespace flags.
pub trait FindVariables {
    fn find_present_variables(&self) -> (r: HasVariables)
        ensures
            self.flags_spec() == r,
    ;

    spec fn flags_spec(&self) -> HasVariables;
}

impl FindVariables for Vec<String> {
    open spec fn flags_spec(&self) -> HasVariables {
        spec_classify(self.deep_view())
    }

    fn find_present_variables(&self) -> (r: HasVariables) {
        classify_names(self)
    }
}

/// Supplies the engine each rule's body compiles in.
///
/// The templating engine is pluggable: the serving stack registers its
/// block extensions (the XML-query block among them) on every engine it
/// supplies, so compiled templates can invoke them at render time without
/// the renderer knowing them.  Every registered extension must be a pure
/// function of its inputs: the render contracts rely on it.
pub trait EngineFactory {
    /// A fresh engine holding no templates, with the stack's extensions
    /// registered.
    fn fresh_engine(&self) -> handlebars::Handlebars<'static>;
}

/// Supplies plain engines with no extensions registered.
pub struct PlainEngineFactory;

impl EngineFactory for PlainEngineFactory {
    fn fresh_engine(&self) -> handlebars::Handlebars<'static> {
        hb_new_registry()
    }
}

/// A compiled response-body spec: either literal text served as-is, or a
/// stored template with the namespaces it references.  Compiled once at
/// load time; rendering never re-parses the text.
#[derive(Debug)]
pub enum RuleBodyCore {
    Plain(String),
    Templated { has_variables: HasVariables, registry: handlebars::Handlebars<'static> },
}

/// Relies on handlebars::Handlebars's derived Clone: the copy holds the
/// same templates and helpers.
impl Clone for RuleBodyCore {
    #[verifier::external_body]
    fn clone(&self) -> Self {
        match self {
            RuleBodyCore::Plain(s) => RuleBodyCore::Plain(s.clone()),
            RuleBodyCore::Templated { has_variables, registry } => RuleBodyCore::Templated {
                has_variables: *has_variables,
                registry: registry.clone(),
            },
        }
    }
}

/// The name under which each rule's body template is stored in its engine.
pub open spec fn spec_template_key() -> Seq<char> {
    "tpl"@
}

/// The name under which each rule's body template is stored in its engine.
pub fn template_key() -> (r: &'static str)
    ensures
        r@ == spec_template_key(),
{
    "tpl"
}

/// Concatenating element lists concatenates their names.
proof fn lemma_els_names_concat(a: Seq<TemplateElement>, b: Seq<TemplateElement>)
    ensures
        els_names(a + b) == els_names(a) + els_names(b),
    decreases a.len(),
{
    if a.len() == 0 {
        assert(a + b =~= b);
        assert(els_names(a) + els_names(b) =~= els_names(b));
    } else {
        assert((a + b)[0] == a[0]);
        assert((a + b).drop_first() =~= a.drop_first() + b);
        lemma_els_names_concat(a.drop_first(), b);
        assert(el_param_names(a[0]) + (els_names(a.drop_first()) + els_names(b))
            =~= (el_param_names(a[0]) + els_names(a.drop_first())) + els_names(b));
    }
}

/// Appending one element appends its names.
proof fn lemma_els_names_snoc(a: Seq<TemplateElement>, x: TemplateElement)
    ensures
        els_names(a.push(x)) == els_names(a) + el_param_names(x),
{
    assert(a.push(x) =~= a + seq![x]);
    lemma_els_names_concat(a, seq![x]);
    assert(seq![x].drop_first() =~= Seq::<TemplateElement>::empty());
    assert(seq![x][0] == x);
    assert(els_names(seq![x].drop_first()) =~= Seq::<Seq<char>>::empty());
    assert(els_names(seq![x]) =~= el_param_names(x) + els_names(seq![x].drop_first()));
    assert(el_param_names(x) + Seq::<Seq<char>>::empty() =~= el_param_names(x));
    assert(els_names(a) + (el_param_names(x) + Seq::<Seq<char>>::empty()) =~= els_names(a)
        + el_param_names(x));
}

/// Concatenating element lists adds their sizes.
proof fn lemma_els_size_concat(a: Seq<TemplateElement>, b: Seq<TemplateElement>)
    ensures
        els_size(a + b) == els_size(a) + els_size(b),
    decreases a.len(),
{
    if a.len() == 0 {
        assert(a + b =~= b);
    } else {
        assert((a + b)[0] == a[0]);
        assert((a + b).drop_first() =~= a.drop_first() + b);
        lemma_els_size_concat(a.drop_first(), b);
    }
}

/// Appending one element adds its size.
proof fn lemma_els_size_snoc(a: Seq<TemplateElement>, x: TemplateElement)
    ensures
        els_size(a.push(x)) == els_size(a) + el_size(x),
{
    assert(a.push(x) =~= a + seq![x]);
    lemma_els_size_concat(a, seq![x]);
    assert(seq![x].drop_first() =~= Seq::<TemplateElement>::empty());
    assert(seq![x][0] == x);
    assert(els_size(seq![x].drop_first()) == 0);
    assert(els_size(seq![x]) == el_size(x));
}

/// Concatenating lists adds their element multisets.
proof fn lemma_to_multiset_concat<A>(x: Seq<A>, y: Seq<A>)
    ensures
        (x + y).to_multiset() == x.to_multiset().add(y.to_multiset()),
    decreases y.len(),
{
    broadcast use vstd::seq_lib::group_to_multiset_ensures;

    if y.len() == 0 {
        assert(x + y =~= x);
        assert forall|a: A| #[trigger] y.to_multiset().count(a) == 0 by {
            if y.to_multiset().count(a) > 0 {
                assert(y.contains(a));
            }
        }
        assert(x.to_multiset().add(y.to_multiset()) =~= x.to_multiset());
    } else {
        let y0 = y.drop_last();
        let b = y.last();
        assert(y =~= y0.push(b));
        assert(x + y =~= (x + y0).push(b));
        lemma_to_multiset_concat(x, y0);
        assert((x + y0).push(b).to_multiset() =~= (x + y0).to_multiset().insert(b));
        assert(y0.push(b).to_multiset() =~= y0.to_multiset().insert(b));
        assert(x.to_multiset().add(y0.to_multiset().insert(b)) =~= x.to_multiset().add(
            y0.to_multiset(),
        ).insert(b));
    }
}

/// Lists with the same element multiset classify the same: the flags look
/// only at which names occur.
proof fn lemma_classify_multiset(a: Seq<Seq<char>>, b: Seq<Seq<char>>)
    requires
        a.to_multiset() == b.to_multiset(),
    ensures
        spec_classify(a) == spec_classify(b),
{
    broadcast use vstd::seq_lib::group_to_multiset_ensures;

    assert forall|p: Seq<char>| #[trigger]
        spec_any_prefixed(a, p) == spec_any_prefixed(b, p) by {
        if spec_any_prefixed(a, p) {
            let i = choose|i: int| 0 <= i < a.len() && starts_with_chars(#[trigger] a[i], p);
            assert(a.contains(a[i]));
            assert(b.to_multiset().count(a[i]) > 0);
            assert(b.contains(a[i]));
            let j = choose|j: int| 0 <= j < b.len() && b[j] == a[i];
            assert(starts_with_chars(b[j], p));
        }
        if spec_any_prefixed(b, p) {
            let i = choose|i: int| 0 <= i < b.len() && starts_with_chars(#[trigger] b[i], p);
            assert(b.contains(b[i]));
            assert(a.to_multiset().count(b[i]) > 0);
            assert(a.contains(b[i]));
            let j = choose|j: int| 0 <= j < a.len() && a[j] == b[i];
            assert(starts_with_chars(a[j], p));
        }
    }
    assert(spec_any_prefixed(a, "headers"@) == spec_any_prefixed(b, "headers"@));
    assert(spec_any_prefixed(a, "url.query"@) == spec_any_prefixed(b, "url.query"@));
    assert(spec_any_prefixed(a, "url.path"@) == spec_any_prefixed(b, "url.path"@));
    assert(spec_any_prefixed(a, "body.json"@) == spec_any_prefixed(b, "body.json"@));
    assert(spec_any_prefixed(a, "body.text"@) == spec_any_prefixed(b, "body.text"@));
}

/// Compiles one response-body text with the given engine.
///
/// The engine parses the text exactly once, succeeding exactly when the
/// text is a well-formed template.  A single literal-text parse gives
/// `Plain` with that text, and the engine is not kept; any other parse
/// gives `Templated`, with the text stored under the template key and the
/// flags classifying the parse's referenced parameter names (nested and
/// inverse blocks included).  A parse failure is reported with the
/// engine's diagnostic.
pub fn rule_body_from_str(
    engine: handlebars::Handlebars<'static>,
    content: String,
) -> (r: Result<RuleBodyCore, String>)
    ensures
        r is Ok <==> hb_parses(content@),
        (r matches Ok(RuleBodyCore::Plain(t))) <==> (hb_parses(content@) && hb_single_raw(
            content@,
        )),
        r matches Ok(RuleBodyCore::Plain(t)) ==> t@ == hb_raw_text(content@),
        r matches Ok(RuleBodyCore::Templated { has_variables, registry }) ==> {
            &&& has_variables == spec_classify(hb_param_names(content@))
            &&& hb_stored(registry, spec_template_key()) == Some(content@)
        },
{
    let mut reg = engine;
    match hb_register_template(&mut reg, template_key(), content.as_str()) {
        Ok(()) => {},
        Err(msg) => {
            return Err(msg);
        },
    }
    let elements = match hb_template_elements(&reg, template_key()) {
        Some(e) => e,
        None => {
            proof {
                assert(false);
            }
            return Err(String::new());
        },
    };
    if elements.len() == 1 {
        match el_raw_string(&elements[0]) {
            Some(raw) => {
                return Ok(RuleBodyCore::Plain(raw));
            },
            None => {
                proof {
                    assert(!hb_single_raw(content@));
                }
            },
        }
    } else {
        proof {
            assert(!hb_single_raw(content@));
        }
    }
    let ghost target = hb_param_names(content@);
    let mut names: Vec<String> = Vec::new();
    let mut work: Vec<TemplateElement> = elements;
    proof {
        assert(names.deep_view() =~= Seq::<Seq<char>>::empty());
        broadcast use vstd::seq_lib::group_to_multiset_ensures;

        assert forall|a: Seq<char>| #[trigger]
            Seq::<Seq<char>>::empty().to_multiset().count(a) == 0 by {
            if Seq::<Seq<char>>::empty().to_multiset().count(a) > 0 {
                assert(Seq::<Seq<char>>::empty().contains(a));
            }
        }
        assert(names.deep_view().to_multiset().add(els_names(work@).to_multiset())
            =~= target.to_multiset());
    }
    while work.len() > 0
        invariant
            target == hb_param_names(content@),
            names.deep_view().to_multiset().add(els_names(work@).to_multiset())
                == target.to_multiset(),
        decreases els_size(work@),
    {
        let ghost work0 = work@;
        let e = work.remove(work.len() - 1);
        proof {
            assert(work@ =~= work0.subrange(0, work0.len() - 1));
            assert(work0 =~= work@.push(e));
            lemma_els_names_snoc(work@, e);
            lemma_els_size_snoc(work@, e);
        }
        let ghost mid_names = names.deep_view();
        let ghost mid_work = work@;
        match el_parts(&e) {
            Some((mut ns, mut sub, mut inv)) => {
                let ghost ns0 = ns.deep_view();
                let ghost sub0 = sub@;
                let ghost inv0 = inv@;
                names.append(&mut ns);
                work.append(&mut sub);
                work.append(&mut inv);
                proof {
                    assert(names.deep_view() =~= mid_names + ns0);
                    assert(work@ =~= (mid_work + sub0) + inv0);
                    lemma_els_names_concat(mid_work + sub0, inv0);
                    lemma_els_names_concat(mid_work, sub0);
                    lemma_els_size_concat(mid_work + sub0, inv0);
                    lemma_els_size_concat(mid_work, sub0);
                    lemma_to_multiset_concat(mid_names, ns0);
                    lemma_to_multiset_concat(els_names(mid_work) + els_names(sub0), els_names(inv0));
                    lemma_to_multiset_concat(els_names(mid_work), els_names(sub0));
                    lemma_to_multiset_concat(ns0, els_names(sub0) + els_names(inv0));
                    lemma_to_multiset_concat(els_names(sub0), els_names(inv0));
                    assert(el_param_names(e) =~= ns0 + (els_names(sub0) + els_names(inv0)));
                    lemma_to_multiset_concat(els_names(mid_work), el_param_names(e));
                    assert(names.deep_view().to_multiset().add(els_names(work@).to_multiset())
                        =~= mid_names.to_multiset().add(
                        els_names(work0).to_multiset(),
                    ));
                }
            },
            None => {
                proof {
                    broadcast use vstd::seq_lib::group_to_multiset_ensures;

                    assert(el_param_names(e) =~= Seq::<Seq<char>>::empty());
                    assert(els_names(work0) =~= els_names(mid_work) + el_param_names(e));
                    assert(els_names(work0) =~= els_names(mid_work));
                }
            },
        }
    }
    proof {
        broadcast use vstd::seq_lib::group_to_multiset_ensures;

        assert(els_names(work@) =~= Seq::<Seq<char>>::empty());
        assert forall|a: Seq<char>| #[trigger]
            els_names(work@).to_multiset().count(a) == 0 by {
            if els_names(work@).to_multiset().count(a) > 0 {
                assert(els_names(work@).contains(a));
            }
        }
        assert(names.deep_view().to_multiset() =~= target.to_multiset());
    }
    let has_variables = classify_names(&names);
    proof {
        lemma_classify_multiset(names.deep_view(), target);
    }
    Ok(RuleBodyCore::Templated { has_variables, registry: reg })
}

} // verus!
