//! Request-time response-body synthesis.
//!
//! A rule's body spec is rendered against the request facets a template
//! actually references.  Which facets to extract is decided here, once,
//! from the compiled template's flags: the request body is read only for
//! `body.*` references, path parameters are resolved only for `url.path`
//! references, and so on.  Extraction itself (reading the body stream,
//! resolving path parameters) happens in the serving layer, which follows
//! the plan and hands the facets in as plain values.

use vstd::prelude::*;
use crate::json::{
    json_null, json_object, json_object_of_pairs, json_parse_bytes, json_parsed, json_string,
    json_view, spec_entries_map, spec_string_map, utf8_decoded, utf8_to_string, JsonData,
};
use crate::hb::{hb_render, hb_rendered};
use crate::model::RuleCore;
use crate::status::StatusCode;
use crate::strings::starts_with_chars;
use crate::template::{
    spec_classify, spec_template_key, template_key, HasVariables, RuleBodyCore,
};

verus! {

/// The request facets a render may consume, each present only when the
/// serving layer extracted it.
#[derive(Debug)]
pub struct RequestFacets {
    /// Request headers, as (name, value) pairs in arrival order.
    pub headers: Option<Vec<(String, String)>>,
    /// Decoded query parameters.
    pub url_query: Option<Vec<(String, String)>>,
    /// Resolved path parameters.
    pub url_path: Option<Vec<(String, String)>>,
    /// The collected request body bytes.
    pub body: Option<Vec<u8>>,
}

impl RequestFacets {
    /// Facets for a request nothing was extracted from.
    pub fn empty() -> (r: RequestFacets)
        ensures
            r.headers is None,
            r.url_query is None,
            r.url_path is None,
            r.body is None,
    {
        RequestFacets { headers: None, url_query: None, url_path: None, body: None }
    }
}

/// What the serving layer must extract before rendering one template.
#[derive(Clone, Copy, Debug, PartialEq, Eq, Structural)]
pub struct ExtractionPlan {
    pub extract_headers: bool,
    pub extract_url_query: bool,
    pub extract_url_path: bool,
    /// Collect the request body stream at all.
    pub read_body: bool,
    pub parse_body_json: bool,
    pub decode_body_text: bool,
}

/// The plan one set of namespace flags dictates.
pub open spec fn spec_plan(flags: HasVariables) -> ExtractionPlan {
    ExtractionPlan {
        extract_headers: flags.has_headers,
        extract_url_query: flags.has_url_query,
        extract_url_path: flags.has_url_path,
        read_body: flags.has_body_json || flags.has_body_text,
        parse_body_json: flags.has_body_json,
        decode_body_text: flags.has_body_text,
    }
}

/// Decides which request facets a compiled template needs: exactly the
/// flagged namespaces.  The body stream is consumed only for `body.*`
/// references; path-parameter resolution is attempted only for `url.path`
/// references.
pub fn extraction_plan(flags: &HasVariables) -> (p: ExtractionPlan)
    ensures
        p == spec_plan(*flags),
{
    ExtractionPlan {
        extract_headers: flags.has_headers,
        extract_url_query: flags.has_url_query,
        extract_url_path: flags.has_url_path,
        read_body: flags.has_body_json || flags.has_body_text,
        parse_body_json: flags.has_body_json,
        decode_body_text: flags.has_body_text,
    }
}

/// A template referencing only the `headers` namespace is served without
/// parsing the request body as JSON or text and without attempting
/// path-parameter or query extraction: its plan reads the headers alone.
pub proof fn lemma_headers_only_template_reads_headers_only(names: Seq<Seq<char>>)
    requires
        forall|i: int| 0 <= i < names.len() ==> starts_with_chars(#[trigger] names[i], "headers"@),
    ensures
        ({
            let p = spec_plan(spec_classify(names));
            &&& !p.read_body
            &&& !p.parse_body_json
            &&& !p.decode_body_text
            &&& !p.extract_url_path
            &&& !p.extract_url_query
        }),
{
    reveal_strlit("headers");
    reveal_strlit("url.query");
    reveal_strlit("url.path");
    reveal_strlit("body.json");
    reveal_strlit("body.text");
    let flags = spec_classify(names);
    assert forall|i: int| 0 <= i < names.len() implies !starts_with_chars(
        #[trigger] names[i],
        "url.query"@,
    ) && !starts_with_chars(names[i], "url.path"@) && !starts_with_chars(names[i], "body.json"@)
        && !starts_with_chars(names[i], "body.text"@) by {
        assert(names[i][0] == 'h');
    }
}

/// One facet of (name, value) pairs as the context sees it: a JSON object
/// of its pairs when flagged and extracted, null otherwise.
pub open spec fn spec_pairs_facet(flag: bool, facet: Option<Vec<(String, String)>>) -> JsonData {
    if flag {
        match facet {
            Some(pairs) => JsonData::Obj(spec_string_map(pairs.deep_view())),
            None => JsonData::Null,
        }
    } else {
        JsonData::Null
    }
}

/// The `body.json` slot: the parsed body when flagged, extracted and
/// well-formed; null otherwise — malformed JSON degrades to null.
pub open spec fn spec_body_json_facet(flag: bool, body: Option<Vec<u8>>) -> JsonData {
    if flag {
        match body {
            Some(b) => match json_parsed(b@) {
                Some(d) => d,
                None => JsonData::Null,
            },
            None => JsonData::Null,
        }
    } else {
        JsonData::Null
    }
}

/// The `body.text` slot: the decoded body when flagged, extracted and
/// valid UTF-8; null otherwise — undecodable bytes degrade to null.
pub open spec fn spec_body_text_facet(flag: bool, body: Option<Vec<u8>>) -> JsonData {
    if flag {
        match body {
            Some(b) => if vstd::utf8::valid_utf8(b@) {
                JsonData::Str(utf8_decoded(b@))
            } else {
                JsonData::Null
            },
            None => JsonData::Null,
        }
    } else {
        JsonData::Null
    }
}

/// The rendering context: `{headers, url: {query, path}, body: {json,
/// text}}`, each facet present exactly when its flag is set.
pub open spec fn spec_ctx(flags: HasVariables, facets: RequestFacets) -> JsonData {
    JsonData::Obj(
        Map::empty().insert("headers"@, spec_pairs_facet(flags.has_headers, facets.headers)).insert(
            "url"@,
            JsonData::Obj(
                Map::empty().insert(
                    "query"@,
                    spec_pairs_facet(flags.has_url_query, facets.url_query),
                ).insert("path"@, spec_pairs_facet(flags.has_url_path, facets.url_path)),
            ),
        ).insert(
            "body"@,
            JsonData::Obj(
                Map::empty().insert(
                    "json"@,
                    spec_body_json_facet(flags.has_body_json, facets.body),
                ).insert("text"@, spec_body_text_facet(flags.has_body_text, facets.body)),
            ),
        ),
    )
}

/// Builds the nested rendering context from the extracted facets and
/// renders the stored template against it.
///
/// The context is exactly `spec_ctx`: unflagged or missing facets enter as
/// JSON null, the body is parsed as JSON only under the `body.json` flag
/// (malformed JSON degrades to null), and decoded as text only under the
/// `body.text` flag (non-UTF-8 bytes degrade to null).  The result is the
/// engine's render of the stored template against that context, a render
/// failure coming back as `Err` with the engine's diagnostic.
pub fn build_templated_response_body(
    registry: &handlebars::Handlebars<'static>,
    flags: &HasVariables,
    facets: &RequestFacets,
) -> (r: Result<String, String>)
    ensures
        match r {
            Ok(s) => hb_rendered(*registry, spec_template_key(), spec_ctx(*flags, *facets))
                == Ok::<Seq<char>, Seq<char>>(s@),
            Err(m) => hb_rendered(*registry, spec_template_key(), spec_ctx(*flags, *facets))
                == Err::<Seq<char>, Seq<char>>(m@),
        },
{
    let headers_v = if flags.has_headers {
        match &facets.headers {
            Some(h) => json_object_of_pairs(h),
            None => json_null(),
        }
    } else {
        json_null()
    };
    let query_v = if flags.has_url_query {
        match &facets.url_query {
            Some(q) => json_object_of_pairs(q),
            None => json_null(),
        }
    } else {
        json_null()
    };
    let path_v = if flags.has_url_path {
        match &facets.url_path {
            Some(p) => json_object_of_pairs(p),
            None => json_null(),
        }
    } else {
        json_null()
    };
    let body_json_v = if flags.has_body_json {
        match &facets.body {
            Some(b) => match json_parse_bytes(b) {
                Some(v) => v,
                None => json_null(),
            },
            None => json_null(),
        }
    } else {
        json_null()
    };
    let body_text_v = if flags.has_body_text {
        match &facets.body {
            Some(b) => match utf8_to_string(b) {
                Some(s) => json_string(s.as_str()),
                None => json_null(),
            },
            None => json_null(),
        }
    } else {
        json_null()
    };
    proof {
        assert(json_view(headers_v) == spec_pairs_facet(flags.has_headers, facets.headers));
        assert(json_view(query_v) == spec_pairs_facet(flags.has_url_query, facets.url_query));
        assert(json_view(path_v) == spec_pairs_facet(flags.has_url_path, facets.url_path));
        assert(json_view(body_json_v) == spec_body_json_facet(flags.has_body_json, facets.body));
        assert(json_view(body_text_v) == spec_body_text_facet(flags.has_body_text, facets.body));
    }
    let mut url_entries: Vec<(String, serde_json::Value)> = Vec::new();
    url_entries.push((String::from_str("query"), query_v));
    let ghost ue1 = url_entries@;
    url_entries.push((String::from_str("path"), path_v));
    proof {
        assert(ue1.drop_last() =~= Seq::<(String, serde_json::Value)>::empty());
        assert(spec_entries_map(ue1.drop_last()) == Map::<Seq<char>, JsonData>::empty());
        assert(url_entries@.drop_last() =~= ue1);
    }
    proof {
        assert(spec_entries_map(ue1) =~= Map::<Seq<char>, JsonData>::empty().insert(
            "query"@,
            json_view(query_v),
        ));
        assert(spec_entries_map(url_entries@) =~= spec_entries_map(ue1).insert(
            "path"@,
            json_view(path_v),
        ));
    }
    let url_v = json_object(url_entries);
    let mut body_entries: Vec<(String, serde_json::Value)> = Vec::new();
    body_entries.push((String::from_str("json"), body_json_v));
    let ghost be1 = body_entries@;
    body_entries.push((String::from_str("text"), body_text_v));
    proof {
        assert(be1.drop_last() =~= Seq::<(String, serde_json::Value)>::empty());
        assert(spec_entries_map(be1.drop_last()) == Map::<Seq<char>, JsonData>::empty());
        assert(body_entries@.drop_last() =~= be1);
    }
    proof {
        assert(spec_entries_map(be1) =~= Map::<Seq<char>, JsonData>::empty().insert(
            "json"@,
            json_view(body_json_v),
        ));
        assert(spec_entries_map(body_entries@) =~= spec_entries_map(be1).insert(
            "text"@,
            json_view(body_text_v),
        ));
    }
    let body_v = json_object(body_entries);
    let mut entries: Vec<(String, serde_json::Value)> = Vec::new();
    entries.push((String::from_str("headers"), headers_v));
    let ghost es1 = entries@;
    entries.push((String::from_str("url"), url_v));
    let ghost es2 = entries@;
    entries.push((String::from_str("body"), body_v));
    proof {
        assert(es1.drop_last() =~= Seq::<(String, serde_json::Value)>::empty());
        assert(spec_entries_map(es1.drop_last()) == Map::<Seq<char>, JsonData>::empty());
        assert(es2.drop_last() =~= es1);
        assert(entries@.drop_last() =~= es2);
    }
    proof {
        assert(spec_entries_map(es1) =~= Map::<Seq<char>, JsonData>::empty().insert(
            "headers"@,
            json_view(headers_v),
        ));
        assert(spec_entries_map(es2) =~= spec_entries_map(es1).insert("url"@, json_view(url_v)));
        assert(spec_entries_map(entries@) =~= spec_entries_map(es2).insert(
            "body"@,
            json_view(body_v),
        ));
    }
    let ctx = json_object(entries);
    proof {
        assert(json_view(url_v) == JsonData::Obj(
            Map::empty().insert("query"@, spec_pairs_facet(flags.has_url_query, facets.url_query)).insert(
                "path"@,
                spec_pairs_facet(flags.has_url_path, facets.url_path),
            ),
        ));
        assert(json_view(body_v) == JsonData::Obj(
            Map::empty().insert("json"@, spec_body_json_facet(flags.has_body_json, facets.body)).insert(
                "text"@,
                spec_body_text_facet(flags.has_body_text, facets.body),
            ),
        ));
        assert(json_view(ctx) == spec_ctx(*flags, *facets));
    }
    hb_render(registry, template_key(), &ctx)
}

/// A fully assembled response: status, content type, body text.
#[derive(Debug)]
pub struct ResponseParts {
    pub status: StatusCode,
    pub content_type: String,
    pub body: String,
}

impl RuleCore {
    /// Synthesizes this rule's response for one request.
    ///
    /// The response carries the rule's status code and content type.  A
    /// missing body spec gives an empty body; a plain body is served
    /// verbatim; a templated body is the engine's render of the stored
    /// template against the flagged facets' context.  A render failure is
    /// the only error, carrying the engine's diagnostic; the serving layer
    /// converts it into a 500 response rather than failing the task.
    pub fn synthesize_response(&self, facets: &RequestFacets) -> (r: Result<ResponseParts, String>)
        ensures
            r matches Ok(p) ==> p.status == self.status && p.content_type@ == self.format@,
            self.body is None ==> (r matches Ok(p) && p.body@ == Seq::<char>::empty()),
            self.body matches Some(RuleBodyCore::Plain(c)) ==> (r matches Ok(p) && p.body@ == c@),
            self.body matches Some(RuleBodyCore::Templated { has_variables, registry }) ==> (match r {
                Ok(p) => hb_rendered(registry, spec_template_key(), spec_ctx(has_variables, *facets))
                    == Ok::<Seq<char>, Seq<char>>(p.body@),
                Err(m) => hb_rendered(registry, spec_template_key(), spec_ctx(has_variables, *facets))
                    == Err::<Seq<char>, Seq<char>>(m@),
            }),
            r is Err ==> self.body matches Some(RuleBodyCore::Templated { .. }),
    {
        match &self.body {
            None => Ok(
                ResponseParts {
                    status: self.status,
                    content_type: self.format.clone(),
                    body: String::new(),
                },
            ),
            Some(RuleBodyCore::Plain(content)) => Ok(
                ResponseParts {
                    status: self.status,
                    content_type: self.format.clone(),
                    body: content.clone(),
                },
            ),
            Some(RuleBodyCore::Templated { has_variables, registry }) => {
                match build_templated_response_body(registry, has_variables, facets) {
                    Ok(body) => Ok(
                        ResponseParts {
                            status: self.status,
                            content_type: self.format.clone(),
                            body,
                        },
                    ),
                    Err(msg) => Err(msg),
                }
            },
        }
    }
}

} // verus!
