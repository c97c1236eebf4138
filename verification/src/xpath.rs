//! The XML-query block extension.
//!
//! A block invocation binds an XML string and an XPath query; the block
//! body then sees a `results` array.  The decision which branch of the
//! block to render, and the reduction of the query outcome to plain
//! values, live here; the engine-side glue that pushes the block context
//! registers these through the templating engine's helper interface.

use vstd::prelude::*;
use serde_json::Number as JN;
use serde_json::Value as JV;
use sxd_xpath::Value as XV;
use crate::json::{json_bool, json_object_of_pairs, json_string, json_view, spec_string_map, JsonData};

verus! {

/// A parsed XML document, carried opaquely from parse to evaluation.
#[verifier::external_type_specification]
#[verifier::external_body]
pub struct ExPackage(sxd_document::Package);

/// One node of a node-set outcome, reduced to plain values: an element
/// contributes its attribute map, a text node its text content, any other
/// node kind is skipped.
#[derive(Clone, Debug)]
pub enum XpathNodeItem {
    Attrs(Vec<(String, String)>),
    Text(String),
    Other,
}

/// A raw XPath evaluation outcome with nodes reduced to plain values.
#[derive(Debug)]
pub enum XpathRawValue {
    Nodes(Vec<XpathNodeItem>),
    Str(String),
    Num(serde_json::Value),
    Bool(bool),
}

/// How one block invocation proceeds.
#[derive(Clone, Copy, Debug, PartialEq, Eq, Structural)]
pub enum XpathBlockAction {
    /// No inner template: render nothing.
    Nothing,
    /// Evaluate the query and render the inner template with `results`.
    RenderInner,
    /// Render the else-block.
    RenderInverse,
    /// Strict mode and nothing to render: fail the render.
    StrictError,
}

/// What failed while evaluating one block invocation.
#[derive(Clone, Copy, Debug, PartialEq, Eq, Structural)]
pub enum XpathBlockError {
    XmlNotWellFormed,
    QueryFailed,
}

impl XpathBlockError {
    /// The diagnostic a failed render reports.
    pub fn message(&self) -> (r: String)
        ensures
            *self == XpathBlockError::XmlNotWellFormed ==> r@ == "problem parsing xml"@,
            *self == XpathBlockError::QueryFailed ==> r@ == "problem evaluating xpath query"@,
    {
        match self {
            XpathBlockError::XmlNotWellFormed => String::from_str("problem parsing xml"),
            XpathBlockError::QueryFailed => String::from_str(
                "problem evaluating xpath query",
            ),
        }
    }
}

/// What one evaluation yields: a node-set reduced to plain items in
/// document order, or a scalar.
pub enum XpathOutcome {
    Nodes(Seq<XpathNodeItem>),
    Str(Seq<char>),
    Num(JsonData),
    Bool(bool),
}

/// Whether a text is a well-formed XML document.
pub uninterp spec fn xml_wf(xml: Seq<char>) -> bool;

/// The text a parsed document came from.
pub uninterp spec fn pkg_source(p: sxd_document::Package) -> Seq<char>;

/// What evaluating a query over a document's text yields: `None` when the
/// query does not compile or evaluate, else the outcome.
pub uninterp spec fn xpath_eval_of(src: Seq<char>, query: Seq<char>) -> Option<XpathOutcome>;

/// Relies on sxd_document::parser::parse: `Some` exactly when the text is
/// a well-formed XML document, and then that document.
#[verifier::external_body]
fn xml_parse(xml: &str) -> (r: Option<sxd_document::Package>)
    ensures
        r is Some <==> xml_wf(xml@),
        r matches Some(p) ==> pkg_source(p) == xml@,
{
    sxd_document::parser::parse(xml).ok()
}

/// Relies on the accessors of sxd_xpath::nodeset::Node: an element node's
/// attributes as (name, value) pairs, a text node's text content, any
/// other node kind marked as skipped.  `xpath_eval` maps this over the
/// node-set it converts.
#[verifier::external_body]
fn node_item(n: sxd_xpath::nodeset::Node<'_>) -> XpathNodeItem {
    match n {
        sxd_xpath::nodeset::Node::Text(t) => XpathNodeItem::Text(t.text().to_string()),
        sxd_xpath::nodeset::Node::Element(e) => XpathNodeItem::Attrs(
            e.attributes().iter().map(
                |a| (a.name().local_part().to_string(), a.value().to_string()),
            ).collect(),
        ),
        _ => XpathNodeItem::Other,
    }
}

/// One node of an evaluated node-set, reduced by `node_item`.
#[verifier::external_type_specification]
#[verifier::external_body]
pub struct ExNode<'d>(sxd_xpath::nodeset::Node<'d>);

/// Relies on sxd_xpath::evaluate_xpath (through Package::as_document and
/// Nodeset::document_order): `None` when the query does not compile or
/// evaluate; otherwise the outcome, a node-set's nodes reduced one by one
/// in document order.
#[verifier::external_body]
fn xpath_eval(pkg: &sxd_document::Package, query: &str) -> (r: Option<XpathRawValue>)
    ensures
        match r {
            None => xpath_eval_of(pkg_source(*pkg), query@) is None,
            Some(raw) => xpath_eval_of(pkg_source(*pkg), query@) == Some(
                match raw {
                    XpathRawValue::Nodes(items) => XpathOutcome::Nodes(items@),
                    XpathRawValue::Str(s) => XpathOutcome::Str(s@),
                    XpathRawValue::Num(v) => XpathOutcome::Num(json_view(v)),
                    XpathRawValue::Bool(b) => XpathOutcome::Bool(b),
                },
            ),
        },
{
    let doc = pkg.as_document();
    match sxd_xpath::evaluate_xpath(&doc, query) {
        Err(_) => None,
        Ok(XV::Nodeset(ns)) => Some(
            XpathRawValue::Nodes(ns.document_order().into_iter().map(node_item).collect()),
        ),
        Ok(XV::String(s)) => Some(XpathRawValue::Str(s)),
        Ok(XV::Number(n)) => Some(XpathRawValue::Num(JN::from_f64(n).map_or(JV::Null, JV::Number))),
        Ok(XV::Boolean(b)) => Some(XpathRawValue::Bool(b)),
    }
}

/// The contents of a list of JSON values.
pub open spec fn spec_views_of(vs: Seq<serde_json::Value>) -> Seq<JsonData> {
    vs.map_values(|v: serde_json::Value| json_view(v))
}

/// What one node contributes to the `results` array: an element its
/// attribute map, a text node its text, any other kind nothing.
pub open spec fn spec_item_model(item: XpathNodeItem) -> Seq<JsonData> {
    match item {
        XpathNodeItem::Attrs(pairs) => seq![JsonData::Obj(spec_string_map(pairs.deep_view()))],
        XpathNodeItem::Text(t) => seq![JsonData::Str(t@)],
        XpathNodeItem::Other => Seq::empty(),
    }
}

/// The `results` array a node-set reduces to, in order.
pub open spec fn spec_results_model(items: Seq<XpathNodeItem>) -> Seq<JsonData>
    decreases items.len(),
{
    if items.len() == 0 {
        Seq::empty()
    } else {
        spec_item_model(items[0]) + spec_results_model(items.drop_first())
    }
}

/// Appending one node appends its contribution.
proof fn lemma_results_model_snoc(items: Seq<XpathNodeItem>, x: XpathNodeItem)
    ensures
        spec_results_model(items.push(x)) == spec_results_model(items) + spec_item_model(x),
    decreases items.len(),
{
    if items.len() == 0 {
        assert(items.push(x)[0] == x);
        assert(items.push(x).drop_first() =~= Seq::<XpathNodeItem>::empty());
        assert(spec_results_model(items.push(x).drop_first()) == Seq::<JsonData>::empty());
        assert(spec_item_model(x) + Seq::<JsonData>::empty() =~= spec_item_model(x));
        assert(Seq::<JsonData>::empty() + spec_item_model(x) =~= spec_item_model(x));
    } else {
        assert(items.push(x)[0] == items[0]);
        assert(items.push(x).drop_first() =~= items.drop_first().push(x));
        lemma_results_model_snoc(items.drop_first(), x);
        assert((spec_item_model(items[0]) + spec_results_model(items.drop_first()))
            + spec_item_model(x) =~= spec_item_model(items[0]) + (spec_results_model(
            items.drop_first(),
        ) + spec_item_model(x)));
    }
}

/// Reduces a node-set's items to the `results` array entries: one entry
/// per element node (its attribute map) and per text node (its text), in
/// order; other node kinds contribute nothing.
pub fn items_to_results(items: &Vec<XpathNodeItem>) -> (r: Vec<serde_json::Value>)
    ensures
        spec_views_of(r@) == spec_results_model(items@),
{
    let mut r: Vec<serde_json::Value> = Vec::new();
    let n = items.len();
    let mut k: usize = 0;
    proof {
        assert(items@.take(0) =~= Seq::<XpathNodeItem>::empty());
        assert(spec_views_of(r@) =~= spec_results_model(items@.take(0)));
    }
    while k < n
        invariant
            n == items@.len(),
            0 <= k <= n,
            spec_views_of(r@) == spec_results_model(items@.take(k as int)),
        decreases n - k,
    {
        proof {
            assert(items@.take(k + 1 as int) =~= items@.take(k as int).push(items@[k as int]));
            lemma_results_model_snoc(items@.take(k as int), items@[k as int]);
        }
        let ghost r0 = r@;
        match &items[k] {
            XpathNodeItem::Attrs(attrs) => {
                let v = json_object_of_pairs(attrs);
                r.push(v);
                proof {
                    assert(spec_views_of(r@) =~= spec_views_of(r0) + spec_item_model(
                        items@[k as int],
                    ));
                }
            },
            XpathNodeItem::Text(text) => {
                let v = json_string(text.as_str());
                r.push(v);
                proof {
                    assert(spec_views_of(r@) =~= spec_views_of(r0) + spec_item_model(
                        items@[k as int],
                    ));
                }
            },
            XpathNodeItem::Other => {
                proof {
                    assert(spec_item_model(items@[k as int]) =~= Seq::<JsonData>::empty());
                    assert(spec_views_of(r@) + Seq::<JsonData>::empty() =~= spec_views_of(r@));
                }
            },
        }
        k = k + 1;
    }
    proof {
        assert(items@.take(n as int) =~= items@);
    }
    r
}

/// The decision of one block invocation, exactly as the block renders:
/// with no inner template nothing is rendered; a bound string renders the
/// inner template when it is non-empty, or empty with no else-block
/// supplied; otherwise the else-block renders where present, strict mode
/// fails, and anything else renders nothing.
pub fn xpath_block_action(
    has_template: bool,
    value_is_string: bool,
    value_empty: bool,
    has_inverse: bool,
    strict: bool,
) -> (r: XpathBlockAction)
    ensures
        !has_template ==> r == XpathBlockAction::Nothing,
        has_template && value_is_string && (!value_empty || !has_inverse) ==> r
            == XpathBlockAction::RenderInner,
        has_template && !(value_is_string && (!value_empty || !has_inverse)) && has_inverse ==> r
            == XpathBlockAction::RenderInverse,
        has_template && !(value_is_string && (!value_empty || !has_inverse)) && !has_inverse
            && strict ==> r == XpathBlockAction::StrictError,
        has_template && !(value_is_string && (!value_empty || !has_inverse)) && !has_inverse
            && !strict ==> r == XpathBlockAction::Nothing,
{
    if !has_template {
        XpathBlockAction::Nothing
    } else if value_is_string && (!value_empty || !has_inverse) {
        XpathBlockAction::RenderInner
    } else if has_inverse {
        XpathBlockAction::RenderInverse
    } else if strict {
        XpathBlockAction::StrictError
    } else {
        XpathBlockAction::Nothing
    }
}

/// Evaluates one block invocation's query: parses the bound XML, runs the
/// query, and reduces the outcome to the `results` array.  It fails with
/// `XmlNotWellFormed` exactly when the XML does not parse, with
/// `QueryFailed` exactly when it does but the query does not evaluate;
/// otherwise a node-set keeps its element and text nodes in document
/// order, and a scalar outcome (string, number, boolean) becomes a
/// one-element array holding that scalar.
pub fn xpath_block_results(xml: &str, query: &str) -> (r: Result<
    Vec<serde_json::Value>,
    XpathBlockError,
>)
    ensures
        (r matches Err(e) && e == XpathBlockError::XmlNotWellFormed) <==> !xml_wf(xml@),
        (r matches Err(e) && e == XpathBlockError::QueryFailed) <==> (xml_wf(xml@)
            && xpath_eval_of(xml@, query@) is None),
        r is Ok <==> (xml_wf(xml@) && xpath_eval_of(xml@, query@) is Some),
        r matches Ok(results) ==> (match xpath_eval_of(xml@, query@) {
            Some(XpathOutcome::Nodes(items)) => spec_views_of(results@) == spec_results_model(
                items,
            ),
            Some(XpathOutcome::Str(text)) => spec_views_of(results@) == seq![JsonData::Str(text)],
            Some(XpathOutcome::Num(d)) => spec_views_of(results@) == seq![d],
            Some(XpathOutcome::Bool(b)) => spec_views_of(results@) == seq![JsonData::Bool(b)],
            None => false,
        }),
{
    let pkg = match xml_parse(xml) {
        Some(p) => p,
        None => {
            return Err(XpathBlockError::XmlNotWellFormed);
        },
    };
    match xpath_eval(&pkg, query) {
        None => Err(XpathBlockError::QueryFailed),
        Some(XpathRawValue::Nodes(items)) => Ok(items_to_results(&items)),
        Some(XpathRawValue::Str(text)) => {
            let mut one: Vec<serde_json::Value> = Vec::new();
            let v = json_string(text.as_str());
            one.push(v);
            proof {
                assert(spec_views_of(one@) =~= seq![JsonData::Str(text@)]);
            }
            Ok(one)
        },
        Some(XpathRawValue::Num(v)) => {
            let ghost d = json_view(v);
            let mut one: Vec<serde_json::Value> = Vec::new();
            one.push(v);
            proof {
                assert(spec_views_of(one@) =~= seq![d]);
            }
            Ok(one)
        },
        Some(XpathRawValue::Bool(b)) => {
            let mut one: Vec<serde_json::Value> = Vec::new();
            let v = json_bool(b);
            one.push(v);
            proof {
                assert(spec_views_of(one@) =~= seq![JsonData::Bool(b)]);
            }
            Ok(one)
        },
    }
}

/// The block extension, as the serving layer registers it with the
/// templating engine: a marker type whose methods carry the extension's
/// verified decision and evaluation logic.
#[derive(Clone, Copy, Debug)]
pub struct XpathHelper;

impl XpathHelper {
    /// The helper name templates invoke the block under.
    pub fn name() -> (r: &'static str)
        ensures
            r@ == "xpath"@,
    {
        "xpath"
    }

    /// See [`xpath_block_action`].
    pub fn action(
        &self,
        has_template: bool,
        value_is_string: bool,
        value_empty: bool,
        has_inverse: bool,
        strict: bool,
    ) -> XpathBlockAction {
        xpath_block_action(has_template, value_is_string, value_empty, has_inverse, strict)
    }

    /// See [`xpath_block_results`].
    pub fn results(&self, xml: &str, query: &str) -> Result<
        Vec<serde_json::Value>,
        XpathBlockError,
    > {
        xpath_block_results(xml, query)
    }
}

} // verus!
