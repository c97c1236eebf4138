use mochi::domain::{build_api_set, build_system, extract_api_shape, extract_rule};
use mochi::endpoint::extract_endpoint;
use mochi::errors::ConfigError;
use mochi::fsmodel::{data_file_key, stem_of, FsSystem, SystemFileKind};
use mochi::shape::validate_api_with_shape;
use mochi::{
    ApiCore, ApiFolder, ApiShapeYaml, ApiYaml, ConfFolder, LatencyYaml, PlainEngineFactory,
    ProxyYaml, Response, ResponseDataYaml, RuleYaml, StatusCode, SystemFolder,
};

fn inline_rule(matches: &str, status: u16, body: &str) -> RuleYaml {
    RuleYaml {
        matches: matches.to_string(),
        latency: None,
        response: Response::Inline(
            status,
            if body.is_empty() { None } else { Some(body.to_string()) },
            Some("text/plain".to_string()),
        ),
    }
}

#[test]
fn endpoint_grammar_accepts_method_and_path() {
    let e = extract_endpoint("POST /route/to/my/endpoint").unwrap();
    assert_eq!(e.method, "POST");
    assert_eq!(e.route, "/route/to/my/endpoint");

    let e = extract_endpoint("GET\t/a?x=1").unwrap();
    assert_eq!(e.method, "GET");
    assert_eq!(e.route, "/a?x=1");
}

#[test]
fn endpoint_grammar_rejects_bad_text() {
    match extract_endpoint("nonsense") {
        Err(ConfigError::MalformedEndpoint(raw)) => assert_eq!(raw, "nonsense"),
        other => panic!("expected a malformed endpoint, got {:?}", other),
    }
    match extract_endpoint("get /lowercase") {
        Err(ConfigError::MalformedEndpoint(_)) => {}
        other => panic!("expected a malformed endpoint, got {:?}", other),
    }
    match extract_endpoint("GET relative/path") {
        Err(ConfigError::InvalidPath(p)) => assert_eq!(p, "relative/path"),
        other => panic!("expected an invalid path, got {:?}", other),
    }
    match extract_endpoint("GET ") {
        Err(ConfigError::MalformedEndpoint(_)) => {}
        other => panic!("expected a malformed endpoint, got {:?}", other),
    }
}

#[test]
fn status_codes_are_three_digits() {
    assert!(StatusCode::from_u16(99).is_none());
    assert_eq!(StatusCode::from_u16(100).unwrap().as_u16(), 100);
    assert_eq!(StatusCode::from_u16(404).unwrap().as_u16(), 404);
    assert_eq!(StatusCode::from_u16(999).unwrap().as_u16(), 999);
    assert!(StatusCode::from_u16(1000).is_none());
}

#[test]
fn shape_mismatch_lists_missing_endpoint() {
    // Shape [GET /a, POST /b] against implemented [GET /a]: the load
    // fails and the message names POST /b as not implemented.
    let engines = PlainEngineFactory;
    let shape = extract_api_shape(&ApiShapeYaml {
        shape: vec!["GET /a".to_string(), "POST /b".to_string()],
    })
    .unwrap();
    let api_yaml = ApiYaml { headers: None, latency: None, rules: vec![inline_rule("GET /a", 200, "x")] };
    let api = mochi::domain::extract_api(&engines, &api_yaml, &Vec::new()).unwrap();
    let err = validate_api_with_shape(&"demo".to_string(), &shape, &api).unwrap_err();
    match &err {
        ConfigError::ShapeMismatch { not_implemented, undeclared, .. } => {
            assert_eq!(not_implemented.len(), 1);
            assert_eq!(not_implemented[0].method, "POST");
            assert_eq!(not_implemented[0].route, "/b");
            assert_eq!(undeclared.len(), 0);
        }
        other => panic!("expected a shape mismatch, got {:?}", other),
    }
    let message = err.message();
    assert!(message.contains("does not implement shape rule 'POST -> /b'"));
}

#[test]
fn shape_accepts_exact_match_and_rejects_extras() {
    let engines = PlainEngineFactory;
    let shape = extract_api_shape(&ApiShapeYaml { shape: vec!["GET /a".to_string()] }).unwrap();
    let exact = ApiYaml { headers: None, latency: None, rules: vec![inline_rule("GET /a", 200, "x")] };
    let api = mochi::domain::extract_api(&engines, &exact, &Vec::new()).unwrap();
    assert!(validate_api_with_shape(&"demo".to_string(), &shape, &api).is_ok());

    let extra = ApiYaml {
        headers: None,
        latency: None,
        rules: vec![inline_rule("GET /a", 200, "x"), inline_rule("PUT /c", 200, "y")],
    };
    let api = mochi::domain::extract_api(&engines, &extra, &Vec::new()).unwrap();
    let err = validate_api_with_shape(&"demo".to_string(), &shape, &api).unwrap_err();
    match err {
        ConfigError::ShapeMismatch { not_implemented, undeclared, .. } => {
            assert_eq!(not_implemented.len(), 0);
            assert_eq!(undeclared.len(), 1);
            assert_eq!(undeclared[0].route, "/c");
        }
        other => panic!("expected a shape mismatch, got {:?}", other),
    }
}

#[test]
fn rule_resolves_data_file_or_fails() {
    let engines = PlainEngineFactory;
    let data = vec![(
        "answer".to_string(),
        ResponseDataYaml {
            status: 303,
            description: None,
            format: Some("application/json".to_string()),
            data: Some("{\n  \"test\": \"2\"\n}".to_string()),
        },
    )];
    let rule = RuleYaml {
        matches: "GET /route2".to_string(),
        latency: None,
        response: Response::File("answer".to_string()),
    };
    let rc = extract_rule(&engines, &rule, &None, &Vec::new(), &data).unwrap();
    assert_eq!(rc.status.as_u16(), 303);
    assert_eq!(rc.format, "application/json");
    assert!(rc.body.is_some());

    let missing = RuleYaml {
        matches: "GET /route2".to_string(),
        latency: None,
        response: Response::File("absent".to_string()),
    };
    match extract_rule(&engines, &missing, &None, &Vec::new(), &data) {
        Err(ConfigError::MissingDataFile(key)) => assert_eq!(key, "absent"),
        other => panic!("expected a missing data file, got {:?}", other),
    }
}

#[test]
fn rule_rejects_bad_status_and_defaults_content_type() {
    let engines = PlainEngineFactory;
    let bad = RuleYaml {
        matches: "GET /a".to_string(),
        latency: None,
        response: Response::Inline(99, None, None),
    };
    match extract_rule(&engines, &bad, &None, &Vec::new(), &Vec::new()) {
        Err(ConfigError::InvalidStatusCode(c)) => assert_eq!(c, 99),
        other => panic!("expected an invalid status, got {:?}", other),
    }
    let plain = RuleYaml {
        matches: "GET /a".to_string(),
        latency: None,
        response: Response::Inline(204, None, None),
    };
    let rc = extract_rule(&engines, &plain, &None, &Vec::new(), &Vec::new()).unwrap();
    assert_eq!(rc.format, "text/plain");
    assert!(rc.body.is_none());
}

#[test]
fn latency_prefers_rule_override_over_group_default() {
    let engines = PlainEngineFactory;
    let with_override = RuleYaml {
        matches: "GET /a".to_string(),
        latency: Some(LatencyYaml::Constant(5)),
        response: Response::Inline(200, None, None),
    };
    let rc = extract_rule(
        &engines,
        &with_override,
        &Some(LatencyYaml::Constant(100)),
        &Vec::new(),
        &Vec::new(),
    )
    .unwrap();
    match rc.latency {
        Some(mochi::LatencyCore::Constant(ms)) => assert_eq!(ms, 5),
        other => panic!("expected the rule's own latency, got {:?}", other),
    }
    let inherited = RuleYaml {
        matches: "GET /a".to_string(),
        latency: None,
        response: Response::Inline(200, None, None),
    };
    let rc = extract_rule(
        &engines,
        &inherited,
        &Some(LatencyYaml::Constant(100)),
        &Vec::new(),
        &Vec::new(),
    )
    .unwrap();
    match rc.latency {
        Some(mochi::LatencyCore::Constant(ms)) => assert_eq!(ms, 100),
        other => panic!("expected the group default, got {:?}", other),
    }
}

#[test]
fn api_set_aggregates_group_errors() {
    let engines = PlainEngineFactory;
    let bad1 = ApiYaml { headers: None, latency: None, rules: vec![inline_rule("broken", 200, "x")] };
    let bad2 = ApiYaml { headers: None, latency: None, rules: vec![inline_rule("GET /a", 99, "x")] };
    let errs = build_api_set(
        &engines,
        &"set".to_string(),
        &None,
        &vec![bad1, bad2],
        &None,
        &Vec::new(),
    )
    .unwrap_err();
    assert_eq!(errs.len(), 2);
}

#[test]
fn api_set_parses_proxy_target() {
    let engines = PlainEngineFactory;
    let set = build_api_set(
        &engines,
        &"ext".to_string(),
        &None,
        &Vec::new(),
        &Some(ProxyYaml { url: "http://upstream".to_string() }),
        &Vec::new(),
    )
    .unwrap();
    assert_eq!(set.proxy.unwrap().0, "http://upstream/");

    let errs = build_api_set(
        &engines,
        &"ext".to_string(),
        &None,
        &Vec::new(),
        &Some(ProxyYaml { url: "not a url at all".to_string() }),
        &Vec::new(),
    )
    .unwrap_err();
    assert_eq!(errs.len(), 1);
}

#[test]
fn whole_configuration_extracts() {
    let engines = PlainEngineFactory;
    let folder = ConfFolder {
        systems: vec![SystemFolder {
            name: "system".to_string(),
            api_folders: vec![ApiFolder {
                name: "mvp".to_string(),
                shape: None,
                apis: vec![ApiYaml {
                    headers: None,
                    latency: None,
                    rules: vec![inline_rule("POST /route1", 200, "content")],
                }],
                proxy: None,
                data: Vec::new(),
            }],
            shape: None,
            apis: vec![ApiYaml {
                headers: None,
                latency: None,
                rules: vec![inline_rule("POST /route", 200, "content")],
            }],
            proxy: None,
            data: Vec::new(),
        }],
    };
    let conf = folder.extract(&engines).unwrap();
    assert_eq!(conf.systems.len(), 1);
    assert_eq!(conf.systems[0].name, "system");
    assert_eq!(conf.systems[0].api_sets.len(), 1);
    assert_eq!(conf.systems[0].api_sets[0].name, "mvp");

    let sys = build_system(&engines, &folder.systems[0]).unwrap();
    assert_eq!(sys.root_api_set.apis.len(), 1);
}

#[test]
fn data_file_keys_strip_folder_and_extension() {
    assert_eq!(data_file_key("tests/basic/system/data/answer.yml"), "answer");
    assert_eq!(data_file_key("config/sys/data/sub/reply.yml"), "sub/reply");
    assert_eq!(stem_of("a.b.yml"), "a.b");
    assert_eq!(stem_of("noext"), "noext");
    assert_eq!(stem_of(".yml"), ".yml");
}

#[test]
fn system_folder_names_and_file_kinds() {
    let sys = FsSystem::new("./tests/basic/system".to_string());
    assert_eq!(sys.get_name().unwrap(), "system");
    assert!(FsSystem::new("./x/".to_string()).get_name().is_err());
    assert_eq!(FsSystem::classify_file_name("api-first.yml"), SystemFileKind::Api);
    assert_eq!(FsSystem::classify_file_name("shape-1.yml"), SystemFileKind::Shape);
    assert_eq!(FsSystem::classify_file_name("proxy.yml"), SystemFileKind::Proxy);
    assert_eq!(FsSystem::classify_file_name("readme.md"), SystemFileKind::Other);
    assert!(FsSystem::is_data_folder("data"));
    assert!(!FsSystem::is_data_folder("Data"));
}

#[test]
fn empty_body_text_means_no_body() {
    let engines = PlainEngineFactory;
    let rule = RuleYaml {
        matches: "GET /a".to_string(),
        latency: None,
        response: Response::Inline(200, Some(String::new()), None),
    };
    let rc = extract_rule(&engines, &rule, &None, &Vec::new(), &Vec::new()).unwrap();
    assert!(rc.body.is_none());
    let _ = ApiCore(Vec::new());
}

#[test]
fn broken_template_fails_the_rule() {
    let engines = PlainEngineFactory;
    let rule = RuleYaml {
        matches: "GET /a".to_string(),
        latency: None,
        response: Response::Inline(200, Some("{{#if cond}}no closing".to_string()), None),
    };
    match extract_rule(&engines, &rule, &None, &Vec::new(), &Vec::new()) {
        Err(ConfigError::TemplateCompile(_)) => {}
        other => panic!("expected a template compile failure, got {:?}", other),
    }
}

#[test]
fn error_messages_name_their_subject() {
    let e = ConfigError::MalformedEndpoint("bogus".to_string());
    assert_eq!(
        e.message(),
        "Could not parse endpoint 'bogus' (should be like 'METHOD /path/to/resource')"
    );
    let e = ConfigError::MissingDataFile("answer".to_string());
    assert_eq!(e.message(), "Getting file content of 'answer'");
}

#[test]
fn status_code_message_names_the_code() {
    let e = ConfigError::InvalidStatusCode(99);
    assert_eq!(e.message(), "Parsing file status '99'");
    let e = ConfigError::InvalidStatusCode(1000);
    assert_eq!(e.message(), "Parsing file status '1000'");
}

#[test]
fn failed_extraction_names_the_system() {
    let engines = PlainEngineFactory;
    let folder = ConfFolder {
        systems: vec![SystemFolder {
            name: "broken_system".to_string(),
            api_folders: Vec::new(),
            shape: None,
            apis: vec![ApiYaml {
                headers: None,
                latency: None,
                rules: vec![inline_rule("bogus", 200, "x")],
            }],
            proxy: None,
            data: Vec::new(),
        }],
    };
    let errs = folder.extract(&engines).unwrap_err();
    assert_eq!(errs.len(), 1);
    assert_eq!(errs[0].0, "broken_system");
    assert!(errs[0].1.message().contains("Could not parse endpoint 'bogus'"));
}
