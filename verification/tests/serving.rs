use mochi::domain::build_system;
use mochi::matcher::{header_value, rule_headers_match, select_rule};
use mochi::render::{extraction_plan, build_templated_response_body, RequestFacets};
use mochi::template::{classify_names, rule_body_from_str, FindVariables};
use mochi::{
    ApiYaml, EngineFactory, PlainEngineFactory, Response, RuleBodyCore, RuleYaml, SystemFolder,
};

fn inline_rule(matches: &str, status: u16, body: &str) -> RuleYaml {
    RuleYaml {
        matches: matches.to_string(),
        latency: None,
        response: Response::Inline(
            status,
            if body.is_empty() { None } else { Some(body.to_string()) },
            Some("text/plain".to_string()),
        ),
    }
}

fn pairs(items: &[(&str, &str)]) -> Vec<(String, String)> {
    items.iter().map(|(k, v)| (k.to_string(), v.to_string())).collect()
}

fn one_group_system(rules: Vec<RuleYaml>) -> mochi::SystemCore {
    let engines = PlainEngineFactory;
    let folder = SystemFolder {
        name: "system".to_string(),
        api_folders: Vec::new(),
        shape: None,
        apis: vec![ApiYaml { headers: None, latency: None, rules }],
        proxy: None,
        data: Vec::new(),
    };
    build_system(&engines, &folder).unwrap()
}

#[test]
fn inline_rule_serves_configured_response() {
    // Scenario: rule `POST /route` with an inline 200/"content"/text-plain
    // answer; a matching request gets exactly that back.
    let sys = one_group_system(vec![inline_rule("POST /route", 200, "content")]);
    let index = sys.generate_rules_map();
    let bucket = index.lookup(&"POST".to_string(), &"/route".to_string()).unwrap();
    let sel = select_rule(bucket, &Vec::new()).unwrap();
    let parts = bucket[sel].synthesize_response(&RequestFacets::empty()).unwrap();
    assert_eq!(parts.status.as_u16(), 200);
    assert_eq!(parts.body, "content");
    assert_eq!(parts.content_type, "text/plain");
}

#[test]
fn unconfigured_route_finds_no_rule() {
    // Any path no configuration declares resolves to no bucket: the 404
    // terminal state, whatever the method.
    let sys = one_group_system(vec![inline_rule("POST /route", 200, "content")]);
    let index = sys.generate_rules_map();
    assert!(index.lookup(&"POST".to_string(), &"/other".to_string()).is_none());
    assert!(index.lookup(&"GET".to_string(), &"/route".to_string()).is_none());
    assert!(index.lookup(&"DELETE".to_string(), &"/".to_string()).is_none());
}

#[test]
fn header_guards_fall_through_in_declaration_order() {
    // Scenario: group1 guards on USER=success and answers 200/"content";
    // group2 has no guard and answers 400/"error".  A request with
    // USER=success takes group1; USER=error falls through to group2.
    let engines = PlainEngineFactory;
    let folder = SystemFolder {
        name: "system".to_string(),
        api_folders: Vec::new(),
        shape: None,
        apis: vec![
            ApiYaml {
                headers: Some(pairs(&[("USER", "success")])),
                latency: None,
                rules: vec![inline_rule("POST /route1", 200, "content")],
            },
            ApiYaml {
                headers: None,
                latency: None,
                rules: vec![inline_rule("POST /route1", 400, "error")],
            },
        ],
    proxy: None,
        data: Vec::new(),
    };
    let sys = build_system(&engines, &folder).unwrap();
    let index = sys.generate_rules_map();
    let bucket = index.lookup(&"POST".to_string(), &"/route1".to_string()).unwrap();
    assert_eq!(bucket.len(), 2);

    let ok = pairs(&[("USER", "success")]);
    let sel = select_rule(bucket, &ok).unwrap();
    let parts = bucket[sel].synthesize_response(&RequestFacets::empty()).unwrap();
    assert_eq!(parts.status.as_u16(), 200);
    assert_eq!(parts.body, "content");

    let fallthrough = pairs(&[("USER", "error")]);
    let sel = select_rule(bucket, &fallthrough).unwrap();
    let parts = bucket[sel].synthesize_response(&RequestFacets::empty()).unwrap();
    assert_eq!(parts.status.as_u16(), 400);
    assert_eq!(parts.body, "error");
}

#[test]
fn matching_is_repeatable() {
    // Matching the same request against the same index twice selects the
    // same rule.
    let sys = one_group_system(vec![
        inline_rule("GET /a", 200, "one"),
        inline_rule("GET /a", 201, "two"),
    ]);
    let index = sys.generate_rules_map();
    let bucket = index.lookup(&"GET".to_string(), &"/a".to_string()).unwrap();
    let first = select_rule(bucket, &Vec::new());
    let second = select_rule(bucket, &Vec::new());
    assert_eq!(first, second);
    assert_eq!(first, Some(0));
}

#[test]
fn rebuilt_index_keeps_bucket_order() {
    // Rule order within a bucket is declaration order, across rebuilds
    // from the same configuration.
    let rules = vec![
        inline_rule("GET /a", 200, "one"),
        inline_rule("GET /a", 201, "two"),
        inline_rule("GET /a", 202, "three"),
    ];
    let idx1 = one_group_system(rules.clone()).generate_rules_map();
    let idx2 = one_group_system(rules).generate_rules_map();
    let key = ("GET".to_string(), "/a".to_string());
    let b1 = idx1.lookup(&key.0, &key.1).unwrap();
    let b2 = idx2.lookup(&key.0, &key.1).unwrap();
    assert_eq!(b1.len(), 3);
    assert_eq!(b2.len(), 3);
    for k in 0..3 {
        assert_eq!(b1[k].status.as_u16(), b2[k].status.as_u16());
        assert_eq!(b1[k].status.as_u16(), 200 + k as u16);
    }
}

#[test]
fn empty_predicate_matches_and_extras_never_block() {
    let empty: Vec<(String, String)> = Vec::new();
    let loaded = pairs(&[("a", "1"), ("b", "2"), ("USER", "success"), ("c", "3")]);
    assert!(rule_headers_match(&empty, &Vec::new()));
    assert!(rule_headers_match(&empty, &loaded));

    let guard = pairs(&[("USER", "success")]);
    assert!(rule_headers_match(&guard, &loaded));
    assert!(!rule_headers_match(&guard, &pairs(&[("USER", "error")])));
    assert!(!rule_headers_match(&guard, &Vec::new()));
}

#[test]
fn header_names_fold_case_but_values_do_not() {
    let req = pairs(&[("UsEr", "success")]);
    assert!(rule_headers_match(&pairs(&[("user", "success")]), &req));
    assert!(rule_headers_match(&pairs(&[("USER", "success")]), &req));
    assert!(!rule_headers_match(&pairs(&[("USER", "SUCCESS")]), &req));
    assert_eq!(header_value(&req, "uSeR"), Some("success".to_string()));
    assert_eq!(header_value(&req, "missing"), None);
}

#[test]
fn template_flags_follow_referenced_namespaces() {
    let names = vec![
        "headers.header".to_string(),
        "url.query.foo".to_string(),
        "unrelated".to_string(),
    ];
    let flags = classify_names(&names);
    assert!(flags.has_headers);
    assert!(flags.has_url_query);
    assert!(!flags.has_url_path);
    assert!(!flags.has_body_json);
    assert!(!flags.has_body_text);
}

#[test]
fn headers_only_template_reads_headers_only() {
    // A template referencing only `headers.*` plans no body read, no JSON
    // parse, no text decode and no path or query extraction.
    let names = vec!["headers.header".to_string(), "headers.other".to_string()];
    let flags = classify_names(&names);
    let plan = extraction_plan(&flags);
    assert!(plan.extract_headers);
    assert!(!plan.read_body);
    assert!(!plan.parse_body_json);
    assert!(!plan.decode_body_text);
    assert!(!plan.extract_url_path);
    assert!(!plan.extract_url_query);
}

#[test]
fn plain_text_compiles_to_plain_body() {
    let engines = PlainEngineFactory;
    match rule_body_from_str(engines.fresh_engine(), "just text".to_string()) {
        Ok(RuleBodyCore::Plain(text)) => assert_eq!(text, "just text"),
        other => panic!("expected a plain body, got {:?}", other),
    }
}

#[test]
fn path_parameter_template_renders_bound_value() {
    // Scenario: template {"v":"{{url.path.id}}"} bound to GET /item/:id;
    // a request for /item/42 renders {"v":"42"}.
    let engines = PlainEngineFactory;
    let spec = rule_body_from_str(
        engines.fresh_engine(),
        "{\"v\":\"{{url.path.id}}\"}".to_string(),
    )
    .unwrap();
    match &spec {
        RuleBodyCore::Templated { has_variables, registry } => {
            assert!(has_variables.has_url_path);
            assert!(!has_variables.has_headers);
            let facets = RequestFacets {
                headers: None,
                url_query: None,
                url_path: Some(pairs(&[("id", "42")])),
                body: None,
            };
            let body = build_templated_response_body(registry, has_variables, &facets).unwrap();
            assert_eq!(body, "{\"v\":\"42\"}");
        }
        other => panic!("expected a templated body, got {:?}", other),
    }
}

#[test]
fn template_renders_headers_query_and_json_body() {
    let engines = PlainEngineFactory;
    let spec = rule_body_from_str(
        engines.fresh_engine(),
        "{{headers.header}}|{{url.query.foo}}|{{body.json.test}}".to_string(),
    )
    .unwrap();
    match &spec {
        RuleBodyCore::Templated { has_variables, registry } => {
            assert!(has_variables.has_headers);
            assert!(has_variables.has_url_query);
            assert!(has_variables.has_body_json);
            assert!(!has_variables.has_body_text);
            let facets = RequestFacets {
                headers: Some(pairs(&[("header", "my simple header")])),
                url_query: Some(pairs(&[("foo", "myfoo")])),
                url_path: None,
                body: Some(b"{\"test\": \"test_value1234\"}".to_vec()),
            };
            let body = build_templated_response_body(registry, has_variables, &facets).unwrap();
            assert_eq!(body, "my simple header|myfoo|test_value1234");
        }
        other => panic!("expected a templated body, got {:?}", other),
    }
}

#[test]
fn malformed_json_body_degrades_to_null() {
    let engines = PlainEngineFactory;
    let spec = rule_body_from_str(
        engines.fresh_engine(),
        "[{{body.json.test}}]".to_string(),
    )
    .unwrap();
    match &spec {
        RuleBodyCore::Templated { has_variables, registry } => {
            let facets = RequestFacets {
                headers: None,
                url_query: None,
                url_path: None,
                body: Some(b"not json".to_vec()),
            };
            let body = build_templated_response_body(registry, has_variables, &facets).unwrap();
            assert_eq!(body, "[]");
        }
        other => panic!("expected a templated body, got {:?}", other),
    }
}

#[test]
fn templated_rule_renders_through_the_pipeline() {
    let engines = PlainEngineFactory;
    let folder = SystemFolder {
        name: "system".to_string(),
        api_folders: Vec::new(),
        shape: None,
        apis: vec![ApiYaml {
            headers: None,
            latency: None,
            rules: vec![RuleYaml {
                matches: "GET /greet".to_string(),
                latency: None,
                response: Response::Inline(
                    200,
                    Some("hello {{headers.who}}".to_string()),
                    None,
                ),
            }],
        }],
        proxy: None,
        data: Vec::new(),
    };
    let sys = build_system(&engines, &folder).unwrap();
    let index = sys.generate_rules_map();
    let bucket = index.lookup(&"GET".to_string(), &"/greet".to_string()).unwrap();
    let sel = select_rule(bucket, &Vec::new()).unwrap();
    let facets = RequestFacets {
        headers: Some(pairs(&[("who", "world")])),
        url_query: None,
        url_path: None,
        body: None,
    };
    let parts = bucket[sel].synthesize_response(&facets).unwrap();
    assert_eq!(parts.body, "hello world");
    assert_eq!(parts.status.as_u16(), 200);
}

#[test]
fn body_text_decodes_utf8_and_degrades_otherwise() {
    let engines = PlainEngineFactory;
    let spec = rule_body_from_str(
        engines.fresh_engine(),
        "<{{body.text}}>".to_string(),
    )
    .unwrap();
    match &spec {
        RuleBodyCore::Templated { has_variables, registry } => {
            assert!(has_variables.has_body_text);
            let facets = RequestFacets {
                headers: None,
                url_query: None,
                url_path: None,
                body: Some(b"raw body".to_vec()),
            };
            let body = build_templated_response_body(registry, has_variables, &facets).unwrap();
            assert_eq!(body, "<raw body>");

            let broken = RequestFacets {
                headers: None,
                url_query: None,
                url_path: None,
                body: Some(vec![0xff, 0xfe]),
            };
            let body = build_templated_response_body(registry, has_variables, &broken).unwrap();
            assert_eq!(body, "<>");
        }
        other => panic!("expected a templated body, got {:?}", other),
    }
}

#[test]
fn find_variables_matches_classification() {
    let names: Vec<String> = vec!["body.json.x".to_string(), "url.path.id".to_string()];
    let flags = names.find_present_variables();
    assert!(flags.has_body_json);
    assert!(flags.has_url_path);
    assert!(!flags.has_headers);
    let reduced = mochi::RuleContentFeaturesCore::of_flags(&flags);
    assert!(reduced.url_path);
    assert!(!reduced.headers);
}
