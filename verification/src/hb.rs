//! Trusted boundary to the `handlebars` templating engine.
//!
//! The engine's parse and render are deterministic functions of the
//! template text, the stored templates and the data content (every
//! registered extension is a pure function of its inputs; see
//! `EngineFactory`).  Their results therefore carry names the contracts
//! here speak of: what a text parses to (`hb_parses`, `hb_single_raw`,
//! `hb_raw_text`, `hb_param_names`), what an engine stores (`hb_stored`),
//! what one parsed element references (`el_param_names`, `el_raw`,
//! `el_size`), and what a render produces (`hb_rendered`).  Each wrapper
//! makes one call into the engine (plus conversions) and is believed, not
//! verified.

use vstd::prelude::*;
use handlebars::template::TemplateElement;
use handlebars::template::Parameter;
use handlebars::template::TemplateElement as El;
use handlebars::Template as HTpl;
use crate::json::{json_view, JsonData};

verus! {

/// The templating engine, carried opaquely: templates are registered in
/// it once at load time and rendered from it at request time.
#[verifier::external_type_specification]
#[verifier::external_body]
pub struct ExHandlebars<'reg>(handlebars::Handlebars<'reg>);

/// One node of the engine's parsed template, carried opaquely; the
/// accessors below reduce it to plain values.
#[verifier::external_type_specification]
#[verifier::external_body]
pub struct ExTemplateElement(TemplateElement);

/// Whether the engine's parser accepts a template text.
pub uninterp spec fn hb_parses(text: Seq<char>) -> bool;

/// Whether the text parses to exactly one raw-text element and no dynamic
/// construct.
pub uninterp spec fn hb_single_raw(text: Seq<char>) -> bool;

/// The raw text of a single-raw-text parse.
pub uninterp spec fn hb_raw_text(text: Seq<char>) -> Seq<char>;

/// The parameter names a text's parse references, depth-first: each
/// element's name, then its positional parameters, then its nested and
/// inverse blocks.
pub uninterp spec fn hb_param_names(text: Seq<char>) -> Seq<Seq<char>>;

/// The template text an engine holds under a name, if any.
pub uninterp spec fn hb_stored(reg: handlebars::Handlebars<'static>, name: Seq<char>) -> Option<
    Seq<char>,
>;

/// The parameter names one parsed element references (its own subtree).
pub uninterp spec fn el_param_names(e: TemplateElement) -> Seq<Seq<char>>;

/// The raw text of a literal-text element, `None` for dynamic elements.
pub uninterp spec fn el_raw(e: TemplateElement) -> Option<Seq<char>>;

/// The node count of one parsed element's subtree: positive, and larger
/// than the sum over its nested blocks.
pub uninterp spec fn el_size(e: TemplateElement) -> nat;

/// The parameter names of an element list, in order.
pub open spec fn els_names(els: Seq<TemplateElement>) -> Seq<Seq<char>>
    decreases els.len(),
{
    if els.len() == 0 {
        Seq::empty()
    } else {
        el_param_names(els[0]) + els_names(els.drop_first())
    }
}

/// The node count of an element list.
pub open spec fn els_size(els: Seq<TemplateElement>) -> nat
    decreases els.len(),
{
    if els.len() == 0 {
        0
    } else {
        el_size(els[0]) + els_size(els.drop_first())
    }
}

/// What a render produces, as a function of the engine, the template name
/// and the data content: the rendered text, or the engine's diagnostic.
pub uninterp spec fn hb_rendered(
    reg: handlebars::Handlebars<'static>,
    name: Seq<char>,
    ctx: JsonData,
) -> Result<Seq<char>, Seq<char>>;

/// Relies on handlebars::Handlebars::new: a fresh engine with no templates
/// and only the built-in helpers registered.
#[verifier::external_body]
pub fn hb_new_registry() -> handlebars::Handlebars<'static> {
    handlebars::Handlebars::new()
}

/// Relies on handlebars::Handlebars::register_template_string: parses the
/// template text — succeeding exactly when the text is a well-formed
/// template — and stores the parse under the given name; `Err` carries the
/// engine's parse diagnostic.
#[verifier::external_body]
pub(crate) fn hb_register_template(
    reg: &mut handlebars::Handlebars<'static>,
    name: &str,
    text: &str,
) -> (r: Result<(), String>)
    ensures
        r is Ok <==> hb_parses(text@),
        r is Ok ==> hb_stored(*final(reg), name@) == Some(text@),
{
    reg.register_template_string(name, text).map_err(|e| e.to_string())
}

/// Relies on handlebars::Handlebars::get_template: hands back the parsed
/// element list of the stored template.  For a stored text, the list is
/// its parse: its parameter names are the text's, and it is one raw-text
/// element exactly when the text is a single-raw parse.
#[verifier::external_body]
pub(crate) fn hb_template_elements(
    reg: &handlebars::Handlebars<'static>,
    name: &str,
) -> (r: Option<Vec<TemplateElement>>)
    ensures
        r is Some <== hb_stored(*reg, name@) is Some,
        r matches Some(els) ==> (match hb_stored(*reg, name@) {
            Some(text) => {
                &&& els_names(els@) == hb_param_names(text)
                &&& (hb_single_raw(text) <==> (els@.len() == 1 && el_raw(els@[0]) is Some))
                &&& (hb_single_raw(text) ==> el_raw(els@[0]) == Some(hb_raw_text(text)))
            },
            None => true,
        }),
{
    reg.get_template(name).map(|t| t.elements.clone())
}

/// Relies on handlebars::template::TemplateElement: the raw text of a
/// `RawString` element, `None` for every other element.
#[verifier::external_body]
pub(crate) fn el_raw_string(e: &TemplateElement) -> (r: Option<String>)
    ensures
        r is Some <==> el_raw(*e) is Some,
        r matches Some(s) ==> Some(s@) == el_raw(*e),
{
    match e {
        TemplateElement::RawString(s) => Some(s.clone()),
        _ => None,
    }
}

/// A referenced parameter of a parsed element, carried opaquely.
#[verifier::external_type_specification]
#[verifier::external_body]
pub struct ExParameter(Parameter);

/// A parsed nested template, carried opaquely.
#[verifier::external_type_specification]
#[verifier::external_body]
pub struct ExTemplate(HTpl);

/// Relies on handlebars::template::Parameter::as_name: the referenced
/// names of one element, the element's own name first, then its
/// positional parameters.
#[verifier::external_body]
fn param_names(n: &Parameter, p: &Vec<Parameter>) -> Vec<String> {
    core::iter::once(n).chain(p.iter()).map(|q| q.as_name().unwrap_or_default().to_string()).collect()
}

/// Relies on handlebars::Template's public fields: a nested block's
/// element list, empty where the block is absent.
#[verifier::external_body]
fn block_els(t: &Option<HTpl>) -> Vec<TemplateElement> {
    t.as_ref().map(|t| t.elements.clone()).unwrap_or_default()
}

/// Relies on the public fields of handlebars::template::{HelperTemplate,
/// DecoratorTemplate}: reduces one element to the names it references and
/// the elements of its nested and inverse blocks, which together make up
/// its subtree; `None` for the leaf kinds (raw text, comments), which
/// reference nothing.
#[verifier::external_body]
pub(crate) fn el_parts(e: &TemplateElement) -> (r: Option<
    (Vec<String>, Vec<TemplateElement>, Vec<TemplateElement>),
>)
    ensures
        r matches Some((names, sub, inv)) ==> {
            &&& el_param_names(*e) == names.deep_view() + els_names(sub@) + els_names(inv@)
            &&& el_size(*e) > els_size(sub@) + els_size(inv@)
        },
        r is None ==> el_param_names(*e) == Seq::<Seq<char>>::empty() && el_size(*e) >= 1,
{
    match e {
        El::Expression(h) | El::HtmlExpression(h) | El::HelperBlock(h) => Some(
            (param_names(&h.name, &h.params), block_els(&h.template), block_els(&h.inverse)),
        ),
        El::DecoratorExpression(d) | El::DecoratorBlock(d) | El::PartialExpression(d)
        | El::PartialBlock(d) => Some(
            (param_names(&d.name, &d.params), block_els(&d.template), Vec::new()),
        ),
        _ => None,
    }
}

/// Relies on handlebars::Handlebars::render: renders the stored template
/// of that name against the given data; `Err` carries the engine's
/// diagnostic.  Rendering reads the stored parse — it never re-parses the
/// template text — and is a function of the engine, the name and the data
/// content, every registered extension being pure.
#[verifier::external_body]
pub(crate) fn hb_render(
    reg: &handlebars::Handlebars<'static>,
    name: &str,
    ctx: &serde_json::Value,
) -> (r: Result<String, String>)
    ensures
        match r {
            Ok(s) => hb_rendered(*reg, name@, json_view(*ctx)) == Ok::<Seq<char>, Seq<char>>(s@),
            Err(m) => hb_rendered(*reg, name@, json_view(*ctx)) == Err::<Seq<char>, Seq<char>>(
                m@,
            ),
        },
{
    reg.render(name, ctx).map_err(|e| e.to_string())
}

} // verus!
