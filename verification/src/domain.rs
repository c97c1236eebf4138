//! The domain builder: turns the raw configuration tree into the
//! immutable core model, validating as it goes.
//!
//! Each rule resolves its response source (inline triple or data-file
//! reference), compiles its body template once, and inherits its group's
//! header predicate and default latency.  An api set aggregates the
//! errors of all its groups before failing rather than stopping at the
//! first; its shape contract, when declared, is validated against every
//! group.

use vstd::prelude::*;
use crate::endpoint::{extract_endpoint, spec_endpoint_of, spec_grammar_matches};
use crate::errors::ConfigError;
use crate::model::{
    valid_route_text, ApiCore, ApiSetCore, ApiSetRootCore, ConfCore, EndpointCore, LatencyCore,
    ProxyCore, RuleCore, SystemCore,
};
use crate::shape::{spec_endpoints_of, spec_shape_ok, validate_api_with_shape};
use crate::status::StatusCode;
use crate::strings::clone_pairs;
use crate::template::{rule_body_from_str, EngineFactory};
use crate::uri::{parse_uri_normalized, uri_normalized};
use crate::yaml_model::{
    ApiShapeYaml, ApiYaml, ConfFolder, LatencyYaml, ProxyYaml, Response, ResponseDataYaml,
    RuleYaml, SystemFolder,
};

verus! {

/// The endpoint text both parses and carries a valid route.
pub open spec fn spec_ep_ok(s: Seq<char>) -> bool {
    spec_grammar_matches(s) && valid_route_text(spec_endpoint_of(s).1)
}

/// First-match lookup in the data-file map.
pub open spec fn spec_data_lookup(
    data: Seq<(String, ResponseDataYaml)>,
    key: Seq<char>,
) -> Option<ResponseDataYaml>
    decreases data.len(),
{
    if data.len() == 0 {
        None
    } else if data[0].0@ == key {
        Some(data[0].1)
    } else {
        spec_data_lookup(data.drop_first(), key)
    }
}

/// The effective latency: the rule's own override, else the group default.
pub open spec fn spec_latency_core(
    own: Option<LatencyYaml>,
    fallback: Option<LatencyYaml>,
) -> Option<LatencyCore> {
    match own {
        Some(LatencyYaml::Constant(v)) => Some(LatencyCore::Constant(v)),
        None => match fallback {
            Some(LatencyYaml::Constant(v)) => Some(LatencyCore::Constant(v)),
            None => None,
        },
    }
}

/// The (status, body, content type) a response source resolves to; `None`
/// when a referenced data file is missing.
pub open spec fn spec_response_source(resp: Response, data: Seq<(String, ResponseDataYaml)>) -> Option<
    (u16, Option<String>, Option<String>),
> {
    match resp {
        Response::File(path) => match spec_data_lookup(data, path@) {
            Some(file) => Some((file.status, file.data, file.format)),
            None => None,
        },
        Response::Inline(status, body, format) => Some((status, body, format)),
    }
}

/// A configured body is served only when non-empty.
pub open spec fn spec_body_nonempty(b: Option<String>) -> bool {
    match b {
        Some(s) => s@.len() > 0,
        None => false,
    }
}

/// A rule builds: its endpoint text is good, its response source resolves
/// to a three-digit status, and its body text, when non-empty, is a
/// well-formed template.
pub open spec fn spec_rule_builds(ry: RuleYaml, data: Seq<(String, ResponseDataYaml)>) -> bool {
    &&& spec_ep_ok(ry.matches@)
    &&& match spec_response_source(ry.response, data) {
        Some(src) => crate::status::valid_status_code(src.0) && (spec_body_nonempty(src.1)
            ==> crate::hb::hb_parses(src.1->0@)),
        None => false,
    }
}

/// A whole group builds: every one of its rules does.
pub open spec fn spec_group_builds(api: ApiYaml, data: Seq<(String, ResponseDataYaml)>) -> bool {
    forall|i: int| 0 <= i < api.rules@.len() ==> spec_rule_builds(#[trigger] api.rules@[i], data)
}

/// The endpoints a group's rules parse to, as (method, route) texts.
pub open spec fn spec_group_endpoints(api: ApiYaml) -> Seq<(Seq<char>, Seq<char>)> {
    api.rules@.map_values(|r: RuleYaml| spec_endpoint_of(r.matches@))
}

/// The endpoints a shape file's texts parse to.
pub open spec fn spec_shape_views(shape: ApiShapeYaml) -> Seq<(Seq<char>, Seq<char>)> {
    shape.shape@.map_values(|t: String| spec_endpoint_of(t@))
}

/// `e` occurs in the endpoint-text list `b`.
pub open spec fn spec_has_ep(b: Seq<(Seq<char>, Seq<char>)>, e: (Seq<char>, Seq<char>)) -> bool {
    exists|j: int| 0 <= j < b.len() && #[trigger] b[j] == e
}

/// Every endpoint of `a` occurs in `b`.
pub open spec fn spec_covers(
    a: Seq<(Seq<char>, Seq<char>)>,
    b: Seq<(Seq<char>, Seq<char>)>,
) -> bool {
    forall|i: int| 0 <= i < a.len() ==> spec_has_ep(b, #[trigger] a[i])
}

/// The shape contract over endpoint texts: mutual coverage.
pub open spec fn spec_shape_ok_v(
    shape: Seq<(Seq<char>, Seq<char>)>,
    implemented: Seq<(Seq<char>, Seq<char>)>,
) -> bool {
    spec_covers(shape, implemented) && spec_covers(implemented, shape)
}

/// A met value-level shape check carries to the endpoint texts.
#[verifier::spinoff_prover]
proof fn lemma_shape_ok_to_views(
    sv: Seq<EndpointCore>,
    rules: Seq<RuleCore>,
    shape_views: Seq<(Seq<char>, Seq<char>)>,
    impl_views: Seq<(Seq<char>, Seq<char>)>,
)
    requires
        sv.len() == shape_views.len(),
        forall|i: int|
            0 <= i < sv.len() ==> (#[trigger] shape_views[i]) == ((sv[i].method@, sv[i].route@)),
        rules.len() == impl_views.len(),
        forall|i: int|
            0 <= i < rules.len() ==> (#[trigger] impl_views[i]) == ((rules[i].endpoint.method@,
            rules[i].endpoint.route@)),
        spec_shape_ok(sv, spec_endpoints_of(rules)),
    ensures
        spec_shape_ok_v(shape_views, impl_views),
{
    let impls = spec_endpoints_of(rules);
    assert forall|i: int| 0 <= i < shape_views.len() implies spec_has_ep(
        impl_views,
        #[trigger] shape_views[i],
    ) by {
        assert(crate::shape::spec_endpoint_in(impls, sv[i]));
        let j = choose|j: int| 0 <= j < impls.len() && (#[trigger] impls[j]).spec_same(sv[i]);
        assert(impls[j] == rules[j].endpoint);
        assert(impl_views[j] == shape_views[i]);
    }
    assert forall|i: int| 0 <= i < impl_views.len() implies spec_has_ep(
        shape_views,
        #[trigger] impl_views[i],
    ) by {
        assert(impls[i] == rules[i].endpoint);
        assert(crate::shape::spec_endpoint_in(sv, impls[i]));
        let j = choose|j: int| 0 <= j < sv.len() && (#[trigger] sv[j]).spec_same(impls[i]);
        assert(shape_views[j] == impl_views[i]);
    }
}

/// A met text-level shape check carries to the endpoint values.
#[verifier::spinoff_prover]
proof fn lemma_shape_ok_from_views(
    sv: Seq<EndpointCore>,
    rules: Seq<RuleCore>,
    shape_views: Seq<(Seq<char>, Seq<char>)>,
    impl_views: Seq<(Seq<char>, Seq<char>)>,
)
    requires
        sv.len() == shape_views.len(),
        forall|i: int|
            0 <= i < sv.len() ==> (#[trigger] shape_views[i]) == ((sv[i].method@, sv[i].route@)),
        rules.len() == impl_views.len(),
        forall|i: int|
            0 <= i < rules.len() ==> (#[trigger] impl_views[i]) == ((rules[i].endpoint.method@,
            rules[i].endpoint.route@)),
        spec_shape_ok_v(shape_views, impl_views),
    ensures
        spec_shape_ok(sv, spec_endpoints_of(rules)),
{
    let impls = spec_endpoints_of(rules);
    assert forall|i: int| 0 <= i < sv.len() implies crate::shape::spec_endpoint_in(
        impls,
        #[trigger] sv[i],
    ) by {
        assert(spec_has_ep(impl_views, shape_views[i]));
        let j = choose|j: int| 0 <= j < impl_views.len() && #[trigger] impl_views[j]
            == shape_views[i];
        assert(impls[j] == rules[j].endpoint);
        assert(impls[j].spec_same(sv[i]));
    }
    assert forall|i: int| 0 <= i < spec_endpoints_of(rules).len() implies
        crate::shape::spec_endpoint_in(sv, #[trigger] spec_endpoints_of(rules)[i]) by {
        assert(impls[i] == rules[i].endpoint);
        assert(spec_has_ep(shape_views, impl_views[i]));
        let j = choose|j: int| 0 <= j < shape_views.len() && #[trigger] shape_views[j]
            == impl_views[i];
        assert(sv[j].spec_same(impls[i]));
    }
}

/// An api set builds: every group does, the proxy target (when declared)
/// parses, and the shape contract (when declared) parses and is met by
/// every group.
pub open spec fn spec_api_set_builds(
    shape: Option<ApiShapeYaml>,
    apis: Seq<ApiYaml>,
    proxy: Option<ProxyYaml>,
    data: Seq<(String, ResponseDataYaml)>,
) -> bool {
    &&& forall|g: int| 0 <= g < apis.len() ==> spec_group_builds(#[trigger] apis[g], data)
    &&& (proxy matches Some(p) ==> uri_normalized(p.url@) is Some)
    &&& (shape matches Some(sy) ==> {
        &&& forall|i: int| 0 <= i < sy.shape@.len() ==> spec_ep_ok(#[trigger] sy.shape@[i]@)
        &&& forall|g: int|
            0 <= g < apis.len() ==> spec_shape_ok_v(
                spec_shape_views(sy),
                spec_group_endpoints(#[trigger] apis[g]),
            )
    })
}

/// What a built rule owes its source: the parsed endpoint, the inherited
/// predicate, the resolved latency, and the resolved response triple with
/// `text/plain` as the default content type.
pub open spec fn spec_rule_ok(
    rc: RuleCore,
    ry: RuleYaml,
    api_latency: Option<LatencyYaml>,
    api_headers: Seq<(Seq<char>, Seq<char>)>,
    data: Seq<(String, ResponseDataYaml)>,
) -> bool {
    &&& rc.endpoint.method@ == spec_endpoint_of(ry.matches@).0
    &&& rc.endpoint.route@ == spec_endpoint_of(ry.matches@).1
    &&& rc.wf()
    &&& rc.headers.deep_view() == api_headers
    &&& rc.latency == spec_latency_core(ry.latency, api_latency)
    &&& match spec_response_source(ry.response, data) {
        Some((status, body, format)) => {
            &&& rc.status.spec_code() == status
            &&& rc.format@ == (match format {
                Some(f) => f@,
                None => "text/plain"@,
            })
            &&& (rc.body is Some <==> spec_body_nonempty(body))
        },
        None => false,
    }
}

/// First-match lookup of a data-file key.
fn data_lookup<'a>(data: &'a Vec<(String, ResponseDataYaml)>, key: &String) -> (r: Option<
    &'a ResponseDataYaml,
>)
    ensures
        match r {
            Some(f) => spec_data_lookup(data@, key@) == Some(*f),
            None => spec_data_lookup(data@, key@) is None,
        },
{
    let n = data.len();
    let mut k: usize = 0;
    proof {
        assert(data@.skip(0) =~= data@);
    }
    while k < n
        invariant
            n == data@.len(),
            0 <= k <= n,
            spec_data_lookup(data@, key@) == spec_data_lookup(data@.skip(k as int), key@),
        decreases n - k,
    {
        proof {
            assert(data@.skip(k as int)[0] == data@[k as int]);
        }
        if data[k].0 == *key {
            return Some(&data[k].1);
        }
        proof {
            assert(data@.skip(k as int).drop_first() =~= data@.skip(k + 1 as int));
        }
        k = k + 1;
    }
    proof {
        assert(data@.skip(n as int).len() == 0);
    }
    None
}

/// Builds one rule.
///
/// Succeeds exactly when the rule builds: it fails with the endpoint's
/// error when the `matches` text is bad, with `MissingDataFile` when the
/// referenced data file is absent, with `InvalidStatusCode` when the
/// resolved status is not three digits, and with `TemplateCompile` exactly
/// when everything else is good but a non-empty body text does not parse;
/// otherwise the built rule satisfies `spec_rule_ok`.
pub fn extract_rule<F: EngineFactory>(
    engines: &F,
    rule: &RuleYaml,
    api_latency: &Option<LatencyYaml>,
    api_headers: &Vec<(String, String)>,
    data: &Vec<(String, ResponseDataYaml)>,
) -> (r: Result<RuleCore, ConfigError>)
    ensures
        r matches Ok(rc) ==> spec_rule_ok(
            rc,
            *rule,
            *api_latency,
            api_headers.deep_view(),
            data@,
        ),
        !spec_ep_ok(rule.matches@) ==> r is Err,
        spec_ep_ok(rule.matches@) ==> (match rule.response {
            Response::File(p) => spec_data_lookup(data@, p@) is None ==> (r matches Err(
                ConfigError::MissingDataFile(q),
            ) && q@ == p@),
            Response::Inline(_, _, _) => true,
        }),
        spec_ep_ok(rule.matches@) ==> (match spec_response_source(rule.response, data@) {
            Some(src) => {
                &&& !crate::status::valid_status_code(src.0) ==> (r matches Err(
                    ConfigError::InvalidStatusCode(c),
                ) && c == src.0)
                &&& crate::status::valid_status_code(src.0) ==> ((r matches Err(
                    ConfigError::TemplateCompile(_),
                )) <==> (spec_body_nonempty(src.1) && !crate::hb::hb_parses(src.1->0@)))
            },
            None => true,
        }),
        r is Ok <==> spec_rule_builds(*rule, data@),
{
    let endpoint = match extract_endpoint(rule.matches.as_str()) {
        Ok(e) => e,
        Err(e) => {
            return Err(e);
        },
    };
    let (status_raw, opt_body, opt_format): (u16, Option<String>, Option<String>) = match &rule
        .response {
        Response::File(path) => {
            let file = match data_lookup(data, path) {
                Some(f) => f,
                None => {
                    return Err(ConfigError::MissingDataFile(path.clone()));
                },
            };
            (
                file.status,
                match &file.data {
                    Some(s) => Some(s.clone()),
                    None => None,
                },
                match &file.format {
                    Some(s) => Some(s.clone()),
                    None => None,
                },
            )
        },
        Response::Inline(status, body, format) => (
            *status,
            match body {
                Some(s) => Some(s.clone()),
                None => None,
            },
            match format {
                Some(s) => Some(s.clone()),
                None => None,
            },
        ),
    };
    let status = match StatusCode::from_u16(status_raw) {
        Some(s) => s,
        None => {
            return Err(ConfigError::InvalidStatusCode(status_raw));
        },
    };
    let body_text: Option<String> = match opt_body {
        Some(b) => {
            if b.as_str().is_empty() {
                None
            } else {
                Some(b)
            }
        },
        None => None,
    };
    let format = match opt_format {
        Some(f) => f,
        None => String::from_str("text/plain"),
    };
    let body = match body_text {
        None => None,
        Some(text) => {
            match rule_body_from_str(engines.fresh_engine(), text) {
                Ok(spec) => Some(spec),
                Err(msg) => {
                    return Err(ConfigError::TemplateCompile(msg));
                },
            }
        },
    };
    let latency: Option<LatencyCore> = match rule.latency {
        Some(LatencyYaml::Constant(v)) => Some(LatencyCore::Constant(v)),
        None => match api_latency {
            Some(LatencyYaml::Constant(v)) => Some(LatencyCore::Constant(*v)),
            None => None,
        },
    };
    Ok(
        RuleCore {
            endpoint,
            headers: clone_pairs(api_headers),
            latency,
            status,
            format,
            body,
        },
    )
}

/// The header predicate one group declares: its `headers` map, or empty.
pub open spec fn spec_api_headers(api: ApiYaml) -> Seq<(Seq<char>, Seq<char>)> {
    match api.headers {
        Some(h) => h.deep_view(),
        None => Seq::empty(),
    }
}

/// Builds one api group, stopping at its first bad rule; it succeeds
/// exactly when every rule builds.
pub fn extract_api<F: EngineFactory>(
    engines: &F,
    api: &ApiYaml,
    data: &Vec<(String, ResponseDataYaml)>,
) -> (r: Result<ApiCore, ConfigError>)
    ensures
        r is Ok <==> spec_group_builds(*api, data@),
        r matches Ok(a) ==> {
            &&& a.0@.len() == api.rules@.len()
            &&& forall|i: int|
                0 <= i < a.0@.len() ==> spec_rule_ok(
                    #[trigger] a.0@[i],
                    api.rules@[i],
                    api.latency,
                    spec_api_headers(*api),
                    data@,
                )
        },
{
    let headers: Vec<(String, String)> = match &api.headers {
        Some(h) => clone_pairs(h),
        None => Vec::new(),
    };
    proof {
        assert(headers.deep_view() =~= spec_api_headers(*api));
    }
    let n = api.rules.len();
    let mut rules: Vec<RuleCore> = Vec::new();
    let mut k: usize = 0;
    while k < n
        invariant
            n == api.rules@.len(),
            0 <= k <= n,
            headers.deep_view() == spec_api_headers(*api),
            rules@.len() == k,
            forall|i: int| 0 <= i < k ==> spec_rule_builds(#[trigger] api.rules@[i], data@),
            forall|i: int|
                0 <= i < k ==> spec_rule_ok(
                    #[trigger] rules@[i],
                    api.rules@[i],
                    api.latency,
                    spec_api_headers(*api),
                    data@,
                ),
        decreases n - k,
    {
        match extract_rule(engines, &api.rules[k], &api.latency, &headers, data) {
            Ok(rc) => {
                rules.push(rc);
            },
            Err(e) => {
                proof {
                    assert(!spec_rule_builds(api.rules@[k as int], data@));
                }
                return Err(e);
            },
        }
        k = k + 1;
    }
    Ok(ApiCore(rules))
}

/// Parses a shape file's endpoint texts.
pub fn extract_api_shape(shape: &ApiShapeYaml) -> (r: Result<Vec<EndpointCore>, ConfigError>)
    ensures
        r is Ok <==> (forall|i: int|
            0 <= i < shape.shape@.len() ==> spec_ep_ok(#[trigger] shape.shape@[i]@)),
        r matches Ok(v) ==> {
            &&& v@.len() == shape.shape@.len()
            &&& forall|i: int|
                0 <= i < v@.len() ==> {
                    &&& (#[trigger] v@[i]).method@ == spec_endpoint_of(shape.shape@[i]@).0
                    &&& v@[i].route@ == spec_endpoint_of(shape.shape@[i]@).1
                    &&& v@[i].wf()
                }
        },
{
    let n = shape.shape.len();
    let mut out: Vec<EndpointCore> = Vec::new();
    let mut k: usize = 0;
    while k < n
        invariant
            n == shape.shape@.len(),
            0 <= k <= n,
            out@.len() == k,
            forall|i: int| 0 <= i < k ==> spec_ep_ok(#[trigger] shape.shape@[i]@),
            forall|i: int|
                0 <= i < k ==> {
                    &&& (#[trigger] out@[i]).method@ == spec_endpoint_of(shape.shape@[i]@).0
                    &&& out@[i].route@ == spec_endpoint_of(shape.shape@[i]@).1
                    &&& out@[i].wf()
                },
        decreases n - k,
    {
        match extract_endpoint(shape.shape[k].as_str()) {
            Ok(e) => {
                out.push(e);
            },
            Err(_) => {
                return Err(ConfigError::MalformedEndpoint(shape.shape[k].clone()));
            },
        }
        k = k + 1;
    }
    Ok(out)
}

/// What a built api set owes its sources.
pub open spec fn spec_api_set_ok(
    set_name: Seq<char>,
    set_shape: Option<Vec<EndpointCore>>,
    set_apis: Seq<ApiCore>,
    set_proxy: Option<ProxyCore>,
    name: Seq<char>,
    shape: Option<ApiShapeYaml>,
    apis: Seq<ApiYaml>,
    proxy: Option<ProxyYaml>,
    data: Seq<(String, ResponseDataYaml)>,
) -> bool {
    &&& set_name == name
    &&& set_apis.len() == apis.len()
    &&& forall|g: int|
        0 <= g < apis.len() ==> {
            &&& (#[trigger] set_apis[g]).0@.len() == apis[g].rules@.len()
            &&& forall|i: int|
                0 <= i < set_apis[g].0@.len() ==> spec_rule_ok(
                    #[trigger] set_apis[g].0@[i],
                    apis[g].rules@[i],
                    apis[g].latency,
                    spec_api_headers(apis[g]),
                    data,
                )
        }
    &&& (set_shape is Some <==> shape is Some)
    &&& (set_shape matches Some(sv) ==> forall|g: int|
        0 <= g < set_apis.len() ==> spec_shape_ok(
            sv@,
            spec_endpoints_of((#[trigger] set_apis[g]).0@),
        ))
    &&& (set_proxy is Some <==> proxy is Some)
    &&& (set_proxy matches Some(pc) ==> proxy matches Some(py) && Some(pc.0@) == uri_normalized(
        py.url@,
    ))
}

/// A group that does not build, as a filter predicate.
pub open spec fn spec_group_fails(data: Seq<(String, ResponseDataYaml)>) -> spec_fn(ApiYaml) -> bool {
    |a: ApiYaml| !spec_group_builds(a, data)
}

/// Builds one api set: all groups first (their errors aggregated rather
/// than stopping at the first — the error list carries at least one entry
/// per failing group), then the proxy target, then the shape contract,
/// which every group must satisfy exactly.  It succeeds exactly when the
/// whole set builds.
pub fn build_api_set<F: EngineFactory>(
    engines: &F,
    name: &String,
    shape: &Option<ApiShapeYaml>,
    apis: &Vec<ApiYaml>,
    proxy: &Option<ProxyYaml>,
    data: &Vec<(String, ResponseDataYaml)>,
) -> (r: Result<ApiSetCore, Vec<ConfigError>>)
    ensures
        r matches Ok(set) ==> spec_api_set_ok(
            set.name@,
            set.shape,
            set.apis@,
            set.proxy,
            name@,
            *shape,
            apis@,
            *proxy,
            data@,
        ) && set.wf(),
        r is Ok <==> spec_api_set_builds(*shape, apis@, *proxy, data@),
        r matches Err(v) ==> v@.len() > 0 && v@.len() >= apis@.filter(
            spec_group_fails(data@),
        ).len(),
{
    let mut errors: Vec<ConfigError> = Vec::new();
    let mut apis_core: Vec<ApiCore> = Vec::new();
    let n = apis.len();
    let mut g: usize = 0;
    proof {
        assert(apis@.take(0) =~= Seq::<ApiYaml>::empty());
        crate::seqx::lemma_filter_empty(spec_group_fails(data@));
    }
    while g < n
        invariant
            n == apis@.len(),
            0 <= g <= n,
            errors@.len() == apis@.take(g as int).filter(spec_group_fails(data@)).len(),
            (errors@.len() == 0) <==> (forall|q: int|
                0 <= q < g ==> spec_group_builds(#[trigger] apis@[q], data@)),
            errors@.len() == 0 ==> {
                &&& apis_core@.len() == g
                &&& forall|q: int|
                    0 <= q < g ==> {
                        &&& (#[trigger] apis_core@[q]).0@.len() == apis@[q].rules@.len()
                        &&& forall|i: int|
                            0 <= i < apis_core@[q].0@.len() ==> spec_rule_ok(
                                #[trigger] apis_core@[q].0@[i],
                                apis@[q].rules@[i],
                                apis@[q].latency,
                                spec_api_headers(apis@[q]),
                                data@,
                            )
                    }
            },
        decreases n - g,
    {
        proof {
            assert(apis@.take(g + 1 as int) =~= apis@.take(g as int).push(apis@[g as int]));
            crate::seqx::lemma_filter_snoc(
                apis@.take(g as int),
                spec_group_fails(data@),
                apis@[g as int],
            );
        }
        match extract_api(engines, &apis[g], data) {
            Ok(a) => {
                apis_core.push(a);
            },
            Err(e) => {
                errors.push(e);
            },
        }
        g = g + 1;
    }
    proof {
        assert(apis@.take(n as int) =~= apis@);
    }
    let ghost gerrs = errors@.len();
    let proxy_core: Option<ProxyCore> = match proxy {
        Some(p) => {
            match parse_uri_normalized(p.url.as_str()) {
                Some(u) => Some(ProxyCore(u)),
                None => {
                    errors.push(ConfigError::InvalidProxyUrl(p.url.clone()));
                    None
                },
            }
        },
        None => None,
    };
    let ghost perrs = errors@.len();
    let shape_core: Option<Vec<EndpointCore>> = match shape {
        Some(s) => {
            match extract_api_shape(s) {
                Ok(sv) => {
                    let m = apis_core.len();
                    let mut q: usize = 0;
                    let ghost errs0 = errors@.len();
                    while q < m
                        invariant
                            m == apis_core@.len(),
                            0 <= q <= m,
                            errors@.len() >= errs0,
                            (errors@.len() == errs0) <==> (forall|i: int|
                                0 <= i < q ==> spec_shape_ok(
                                    sv@,
                                    spec_endpoints_of((#[trigger] apis_core@[i]).0@),
                                )),
                        decreases m - q,
                    {
                        match validate_api_with_shape(name, &sv, &apis_core[q]) {
                            Ok(()) => {},
                            Err(e) => {
                                errors.push(e);
                            },
                        }
                        q = q + 1;
                    }
                    Some(sv)
                },
                Err(e) => {
                    errors.push(e);
                    None
                },
            }
        },
        None => None,
    };
    if errors.len() > 0 {
        proof {
            // The error list holds one entry per failing group, and a
            // non-empty list means some stage failed.
            assert(errors@.len() >= gerrs);
            if gerrs > 0 {
                let fails = apis@.filter(spec_group_fails(data@));
                Seq::lemma_filter_pred(apis@, spec_group_fails(data@), 0);
                crate::seqx::lemma_filter_elem_of(apis@, spec_group_fails(data@), 0);
                let i = choose|i: int| 0 <= i < apis@.len() && apis@[i] == fails[0];
                assert(!spec_group_builds(apis@[i], data@));
                assert(!spec_api_set_builds(*shape, apis@, *proxy, data@));
            } else {
                assert(forall|q: int| 0 <= q < apis@.len() ==> spec_group_builds(
                    #[trigger] apis@[q],
                    data@,
                ));
                if perrs > gerrs {
                    assert(proxy matches Some(p) && uri_normalized(p.url@) is None);
                    assert(!spec_api_set_builds(*shape, apis@, *proxy, data@));
                } else {
                    assert(shape is Some);
                    let sy = shape->0;
                    if !(forall|i: int|
                        0 <= i < sy.shape@.len() ==> spec_ep_ok(#[trigger] sy.shape@[i]@)) {
                        assert(!spec_api_set_builds(*shape, apis@, *proxy, data@));
                    } else {
                        // Shape parsed; a validation failed.
                        assert(shape_core is Some);
                        let sv = shape_core->0;
                        let bad = choose|i: int|
                            0 <= i < apis_core@.len() && !spec_shape_ok(
                                sv@,
                                spec_endpoints_of((#[trigger] apis_core@[i]).0@),
                            );
                        assert(0 <= bad < apis_core@.len() && !spec_shape_ok(
                            sv@,
                            spec_endpoints_of(apis_core@[bad].0@),
                        ));
                        assert forall|i: int|
                            0 <= i < sv@.len() implies (#[trigger] spec_shape_views(sy)[i]) == ((
                        sv@[i].method@, sv@[i].route@)) by {
                            assert(spec_shape_views(sy)[i] == spec_endpoint_of(sy.shape@[i]@));
                        }
                        assert forall|i: int|
                            0 <= i < apis_core@[bad].0@.len() implies (
                        #[trigger] spec_group_endpoints(apis@[bad])[i]) == ((apis_core@[
                        bad].0@[i].endpoint.method@, apis_core@[bad].0@[i].endpoint.route@)) by {
                            assert(spec_rule_ok(
                                apis_core@[bad].0@[i],
                                apis@[bad].rules@[i],
                                apis@[bad].latency,
                                spec_api_headers(apis@[bad]),
                                data@,
                            ));
                            assert(spec_group_endpoints(apis@[bad])[i] == spec_endpoint_of(
                                apis@[bad].rules@[i].matches@,
                            ));
                        }
                        if spec_shape_ok_v(spec_shape_views(sy), spec_group_endpoints(apis@[bad])) {
                            lemma_shape_ok_from_views(
                                sv@,
                                apis_core@[bad].0@,
                                spec_shape_views(sy),
                                spec_group_endpoints(apis@[bad]),
                            );
                        }
                        assert(!spec_api_set_builds(*shape, apis@, *proxy, data@));
                    }
                }
            }
        }
        return Err(errors);
    }
    proof {
        // Everything succeeded: every group builds, the proxy parses, the
        // shape parses and every group meets it.
        assert(forall|q: int|
            0 <= q < apis@.len() ==> spec_group_builds(#[trigger] apis@[q], data@));
        if shape is Some {
            let sy = shape->0;
            let sv = shape_core->0;
            assert forall|g2: int| 0 <= g2 < apis@.len() implies spec_shape_ok_v(
                spec_shape_views(sy),
                spec_group_endpoints(#[trigger] apis@[g2]),
            ) by {
                assert(spec_shape_ok(sv@, spec_endpoints_of(apis_core@[g2].0@)));
                assert forall|i: int|
                    0 <= i < sv@.len() implies (#[trigger] spec_shape_views(sy)[i]) == ((sv@[
                i].method@, sv@[i].route@)) by {
                    assert(spec_shape_views(sy)[i] == spec_endpoint_of(sy.shape@[i]@));
                }
                assert forall|i: int|
                    0 <= i < apis_core@[g2].0@.len() implies (
                #[trigger] spec_group_endpoints(apis@[g2])[i]) == ((apis_core@[
                g2].0@[i].endpoint.method@, apis_core@[g2].0@[i].endpoint.route@)) by {
                    assert(spec_rule_ok(
                        apis_core@[g2].0@[i],
                        apis@[g2].rules@[i],
                        apis@[g2].latency,
                        spec_api_headers(apis@[g2]),
                        data@,
                    ));
                    assert(spec_group_endpoints(apis@[g2])[i] == spec_endpoint_of(
                        apis@[g2].rules@[i].matches@,
                    ));
                }
                lemma_shape_ok_to_views(
                    sv@,
                    apis_core@[g2].0@,
                    spec_shape_views(sy),
                    spec_group_endpoints(apis@[g2]),
                );
            }
        }
        assert(spec_api_set_builds(*shape, apis@, *proxy, data@));
    }
    // An extraction error for the shape or the proxy would have been
    // recorded above, so both resolved exactly when declared.
    proof {
        assert(shape_core is Some <==> shape is Some);
        assert(proxy_core is Some <==> proxy is Some);
        assert(apis_core@.len() == apis@.len());
        assert forall|g2: int| 0 <= g2 < apis_core@.len() implies (
        #[trigger] apis_core@[g2]).wf() by {
            assert forall|i: int| 0 <= i < apis_core@[g2].0@.len() implies (
            #[trigger] apis_core@[g2].0@[i]).wf() by {
                assert(spec_rule_ok(
                    apis_core@[g2].0@[i],
                    apis@[g2].rules@[i],
                    apis@[g2].latency,
                    spec_api_headers(apis@[g2]),
                    data@,
                ));
            }
        }
    }
    Ok(ApiSetCore { name: name.clone(), shape: shape_core, apis: apis_core, proxy: proxy_core })
}

/// Builds a system's root api set from the files directly under its
/// folder, under the same rules as a named set; it succeeds exactly when
/// the root set builds.
pub fn build_root_api_set<F: EngineFactory>(engines: &F, system: &SystemFolder) -> (r: Result<
    ApiSetRootCore,
    Vec<ConfigError>,
>)
    ensures
        r is Ok <==> spec_api_set_builds(system.shape, system.apis@, system.proxy, system.data@),
        r matches Ok(set) ==> spec_api_set_ok(
            system.name@,
            set.shape,
            set.apis@,
            set.proxy,
            system.name@,
            system.shape,
            system.apis@,
            system.proxy,
            system.data@,
        ) && set.wf(),
        r matches Err(v) ==> v@.len() > 0,
{
    match build_api_set(
        engines,
        &system.name,
        &system.shape,
        &system.apis,
        &system.proxy,
        &system.data,
    ) {
        Ok(set) => Ok(ApiSetRootCore { shape: set.shape, apis: set.apis, proxy: set.proxy }),
        Err(v) => Err(v),
    }
}

/// Copies two data-file maps into one, earlier entries shadowing later
/// ones under first-match lookup.
fn concat_data(a: &Vec<(String, ResponseDataYaml)>, b: &Vec<(String, ResponseDataYaml)>) -> (r:
    Vec<(String, ResponseDataYaml)>)
    ensures
        r@ == a@ + b@,
{
    let mut r: Vec<(String, ResponseDataYaml)> = Vec::new();
    let n = a.len();
    let mut k: usize = 0;
    while k < n
        invariant
            n == a@.len(),
            0 <= k <= n,
            r@ == a@.take(k as int),
        decreases n - k,
    {
        let pair = (a[k].0.clone(), a[k].1.clone());
        proof {
            assert(pair == a@[k as int]);
            assert(a@.take(k + 1 as int) =~= a@.take(k as int).push(a@[k as int]));
        }
        r.push(pair);
        k = k + 1;
    }
    proof {
        assert(a@.take(n as int) =~= a@);
    }
    let m = b.len();
    let mut j: usize = 0;
    proof {
        assert(r@ =~= a@ + b@.take(0));
    }
    while j < m
        invariant
            m == b@.len(),
            0 <= j <= m,
            r@ == a@ + b@.take(j as int),
        decreases m - j,
    {
        let pair = (b[j].0.clone(), b[j].1.clone());
        proof {
            assert(pair == b@[j as int]);
            assert(a@ + b@.take(j + 1 as int) =~= (a@ + b@.take(j as int)).push(b@[j as int]));
        }
        r.push(pair);
        j = j + 1;
    }
    proof {
        assert(b@.take(m as int) =~= b@);
    }
    r
}

/// What a built system owes its folder: the root api set built from the
/// folder's own files, and one named api set per sub-folder, in order.
/// Each named set's data lookups search the system folder's entries
/// first, then the sub-folder's own: on a duplicate key the system's
/// entry shadows the sub-folder's, as the loader's merge behaves.
pub open spec fn spec_system_ok(sys: SystemCore, folder: SystemFolder) -> bool {
    &&& sys.name@ == folder.name@
    &&& sys.wf()
    &&& spec_api_set_ok(
        folder.name@,
        sys.root_api_set.shape,
        sys.root_api_set.apis@,
        sys.root_api_set.proxy,
        folder.name@,
        folder.shape,
        folder.apis@,
        folder.proxy,
        folder.data@,
    )
    &&& sys.api_sets@.len() == folder.api_folders@.len()
    &&& forall|i: int|
        0 <= i < sys.api_sets@.len() ==> spec_api_set_ok(
            (#[trigger] sys.api_sets@[i]).name@,
            sys.api_sets@[i].shape,
            sys.api_sets@[i].apis@,
            sys.api_sets@[i].proxy,
            folder.api_folders@[i].name@,
            folder.api_folders@[i].shape,
            folder.api_folders@[i].apis@,
            folder.api_folders@[i].proxy,
            folder.data@ + folder.api_folders@[i].data@,
        )
}

/// A system builds: its root api set does, and every named sub-folder's
/// set does, each seeing the system folder's data entries first and its
/// own behind them.
pub open spec fn spec_system_builds(folder: SystemFolder) -> bool {
    &&& spec_api_set_builds(folder.shape, folder.apis@, folder.proxy, folder.data@)
    &&& forall|i: int|
        0 <= i < folder.api_folders@.len() ==> spec_api_set_builds(
            (#[trigger] folder.api_folders@[i]).shape,
            folder.api_folders@[i].apis@,
            folder.api_folders@[i].proxy,
            folder.data@ + folder.api_folders@[i].data@,
        )
}

/// Builds one system: its root api set and every named api set, gathering
/// the errors of all of them before failing rather than stopping at the
/// first bad one.  It succeeds exactly when the whole system builds.
pub fn build_system<F: EngineFactory>(engines: &F, folder: &SystemFolder) -> (r: Result<
    SystemCore,
    Vec<ConfigError>,
>)
    ensures
        r is Ok <==> spec_system_builds(*folder),
        r matches Ok(sys) ==> spec_system_ok(sys, *folder),
        r matches Err(v) ==> v@.len() > 0,
{
    let mut errors: Vec<ConfigError> = Vec::new();
    let root = match build_root_api_set(engines, folder) {
        Ok(root) => Some(root),
        Err(mut v) => {
            errors.append(&mut v);
            None
        },
    };
    let mut sets: Vec<ApiSetCore> = Vec::new();
    let n = folder.api_folders.len();
    let mut k: usize = 0;
    let ghost errs0 = errors@.len();
    while k < n
        invariant
            n == folder.api_folders@.len(),
            0 <= k <= n,
            errors@.len() >= errs0,
            (errors@.len() == 0) <==> (spec_api_set_builds(
                folder.shape,
                folder.apis@,
                folder.proxy,
                folder.data@,
            ) && (forall|i: int|
                0 <= i < k ==> spec_api_set_builds(
                    (#[trigger] folder.api_folders@[i]).shape,
                    folder.api_folders@[i].apis@,
                    folder.api_folders@[i].proxy,
                    folder.data@ + folder.api_folders@[i].data@,
                ))),
            errors@.len() == 0 ==> {
                &&& sets@.len() == k
                &&& forall|i: int|
                    0 <= i < k ==> spec_api_set_ok(
                        (#[trigger] sets@[i]).name@,
                        sets@[i].shape,
                        sets@[i].apis@,
                        sets@[i].proxy,
                        folder.api_folders@[i].name@,
                        folder.api_folders@[i].shape,
                        folder.api_folders@[i].apis@,
                        folder.api_folders@[i].proxy,
                        folder.data@ + folder.api_folders@[i].data@,
                    ) && sets@[i].wf()
            },
        decreases n - k,
    {
        let f = &folder.api_folders[k];
        let merged = concat_data(&folder.data, &f.data);
        match build_api_set(engines, &f.name, &f.shape, &f.apis, &f.proxy, &merged) {
            Ok(set) => {
                sets.push(set);
            },
            Err(mut v) => {
                errors.append(&mut v);
            },
        }
        k = k + 1;
    }
    if errors.len() > 0 {
        return Err(errors);
    }
    match root {
        Some(root_api_set) => Ok(
            SystemCore { name: folder.name.clone(), root_api_set, api_sets: sets },
        ),
        None => Err(errors),
    }
}

impl ConfFolder {
    /// Builds the whole core configuration; it succeeds exactly when
    /// every system builds, and a failure carries each error under the
    /// name of the system it belongs to.  Callers that load best-effort
    /// (dropping a failing system or api set and keeping the rest) build
    /// the units one by one through `build_system` and `build_api_set`
    /// instead.
    pub fn extract<F: EngineFactory>(&self, engines: &F) -> (r: Result<
        ConfCore,
        Vec<(String, ConfigError)>,
    >)
        ensures
            r is Ok <==> (forall|i: int|
                0 <= i < self.systems@.len() ==> spec_system_builds(#[trigger] self.systems@[i])),
            r matches Ok(conf) ==> {
                &&& conf.wf()
                &&& conf.systems@.len() == self.systems@.len()
                &&& forall|i: int|
                    0 <= i < conf.systems@.len() ==> spec_system_ok(
                        #[trigger] conf.systems@[i],
                        self.systems@[i],
                    )
            },
            r matches Err(v) ==> v@.len() > 0,
    {
        let mut errors: Vec<(String, ConfigError)> = Vec::new();
        let mut systems: Vec<SystemCore> = Vec::new();
        let n = self.systems.len();
        let mut k: usize = 0;
        while k < n
            invariant
                n == self.systems@.len(),
                0 <= k <= n,
                (errors@.len() == 0) <==> (forall|i: int|
                    0 <= i < k ==> spec_system_builds(#[trigger] self.systems@[i])),
                errors@.len() == 0 ==> {
                    &&& systems@.len() == k
                    &&& forall|i: int|
                        0 <= i < k ==> spec_system_ok(
                            #[trigger] systems@[i],
                            self.systems@[i],
                        )
                },
            decreases n - k,
        {
            match build_system(engines, &self.systems[k]) {
                Ok(sys) => {
                    systems.push(sys);
                },
                Err(mut v) => {
                    let sys_name = self.systems[k].name.clone();
                    let ghost base = errors@.len();
                    let ghost v0 = v@.len();
                    while v.len() > 0
                        invariant
                            errors@.len() == base + v0 - v@.len(),
                            v@.len() <= v0,
                        decreases v.len(),
                    {
                        let e = v.remove(0);
                        errors.push((sys_name.clone(), e));
                    }
                    proof {
                        assert(errors@.len() > 0);
                    }
                },
            }
            k = k + 1;
        }
        if errors.len() > 0 {
            return Err(errors);
        }
        Ok(ConfCore { systems })
    }
}

} // verus!
