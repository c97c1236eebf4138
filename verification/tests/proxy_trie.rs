use mochi::proxy::{
    build_outbound_url, query_of_uri, reconstruct_target_url, split_segments, upstream_response,
    ProxyError,
};
use mochi::trie::{NodePath, ProxyState};
use mochi::xpath::{
    xpath_block_action, xpath_block_results, XpathBlockAction, XpathBlockError, XpathHelper,
};

fn segs(path: &str) -> Vec<String> {
    split_segments(path)
}

#[test]
fn outbound_url_glues_base_path_and_query() {
    // Scenario: proxy target http://upstream for api set `ext`; a request
    // for /proxy/system/ext/foo/bar?x=1 goes upstream to
    // http://upstream/foo/bar?x=1.
    let url = build_outbound_url(
        &"http://upstream/".to_string(),
        &"foo/bar".to_string(),
        &"/proxy/system/ext/foo/bar?x=1".to_string(),
    );
    assert_eq!(url, "http://upstream/foo/bar?x=1");

    let checked = reconstruct_target_url(
        &"http://upstream/".to_string(),
        &"foo/bar".to_string(),
        &"/proxy/system/ext/foo/bar?x=1".to_string(),
    )
    .unwrap();
    assert_eq!(checked, "http://upstream/foo/bar?x=1");
}

#[test]
fn bad_reconstructed_url_is_reported() {
    match reconstruct_target_url(
        &"not a scheme".to_string(),
        &"foo".to_string(),
        &"/x".to_string(),
    ) {
        Err(ProxyError::InvalidReconstructedUrl(text)) => assert_eq!(text, "not a schemefoo"),
        other => panic!("expected an invalid URL, got {:?}", other),
    }
}

#[test]
fn query_extraction_finds_first_question_mark() {
    assert_eq!(query_of_uri("/a/b?x=1&y=2"), Some("x=1&y=2".to_string()));
    assert_eq!(query_of_uri("/a/b"), None);
    assert_eq!(query_of_uri("/a?x?y"), Some("x?y".to_string()));
    assert_eq!(query_of_uri(""), None);
}

#[test]
fn path_segments_split_on_slash() {
    let parts = split_segments("foo/bar");
    assert_eq!(parts, vec!["foo".to_string(), "bar".to_string()]);
    assert_eq!(split_segments("a//b"), vec!["a".to_string(), "".to_string(), "b".to_string()]);
    assert_eq!(split_segments(""), vec!["".to_string()]);
}

#[test]
fn trie_records_observed_paths() {
    // Scenario continued: after one forwarded request for foo/bar the
    // diagnostic dump shows a foo node with child bar.
    let mut state = ProxyState::new();
    state.append_path(&segs("foo/bar"));
    let dump = state.display_routes();
    assert_eq!(dump, "foo\n -> bar\n");

    state.append_path(&segs("foo/baz"));
    state.append_path(&segs("other"));
    let dump = state.display_routes();
    assert_eq!(dump, "foo\n -> bar\n -> baz\n\nother\n");
}

#[test]
fn trie_insertion_is_idempotent_and_never_prunes() {
    let mut state = ProxyState::new();
    state.append_path(&segs("a/b/c"));
    let once = state.display_routes();
    state.append_path(&segs("a/b/c"));
    assert_eq!(state.display_routes(), once);
    state.append_path(&segs("a/b"));
    assert_eq!(state.display_routes(), once);
}

#[test]
fn node_display_indents_by_depth() {
    let node = NodePath::constant("leaf");
    assert_eq!(node.display(0), "leaf\n");
    assert_eq!(node.display(2), " ->  -> leaf\n");
}

#[test]
fn upstream_answer_is_copied_with_default_content_type() {
    let parts = upstream_response(502, None, b"oops".to_vec());
    assert_eq!(parts.status, 502);
    assert_eq!(parts.content_type, "text/plain");
    assert_eq!(parts.body, b"oops".to_vec());

    let parts = upstream_response(200, Some("application/json".to_string()), b"{}".to_vec());
    assert_eq!(parts.content_type, "application/json");
}

#[test]
fn xpath_results_reduce_elements_and_text() {
    let xml = "<node>\n    <el name=\"v1\" />\n    <el name=\"v2\" />\n    <el name=\"v3\" />\n</node>";
    let results = xpath_block_results(xml, "//el[1]").unwrap();
    assert_eq!(results.len(), 1);
    match &results[0] {
        serde_json::Value::Object(map) => {
            assert_eq!(map.get("name"), Some(&serde_json::Value::String("v1".to_string())));
        }
        other => panic!("expected an attribute map, got {:?}", other),
    }

    let with_text = "<node><el name=\"v1\">hello</el></node>";
    let results = xpath_block_results(with_text, "//el[1]/text()").unwrap();
    assert_eq!(results.len(), 1);
    assert_eq!(results[0], serde_json::Value::String("hello".to_string()));
}

#[test]
fn xpath_scalar_results_become_one_element() {
    let xml = "<node><el/><el/></node>";
    let results = xpath_block_results(xml, "count(//el)").unwrap();
    assert_eq!(results.len(), 1);

    let results = xpath_block_results(xml, "string(name(/node))").unwrap();
    assert_eq!(results, vec![serde_json::Value::String("node".to_string())]);

    let results = xpath_block_results(xml, "boolean(//el)").unwrap();
    assert_eq!(results, vec![serde_json::Value::Bool(true)]);
}

#[test]
fn xpath_failures_are_typed() {
    assert_eq!(
        xpath_block_results("<unclosed", "//a").unwrap_err(),
        XpathBlockError::XmlNotWellFormed,
    );
    assert_eq!(
        xpath_block_results("<a/>", "///bad[[").unwrap_err(),
        XpathBlockError::QueryFailed,
    );
    assert_eq!(XpathBlockError::XmlNotWellFormed.message(), "problem parsing xml");
}

#[test]
fn xpath_block_decision_follows_the_bound_value() {
    let helper = XpathHelper;
    // No inner template: nothing to render.
    assert_eq!(helper.action(false, true, false, false, false), XpathBlockAction::Nothing);
    // A non-empty bound string renders the inner template.
    assert_eq!(
        xpath_block_action(true, true, false, true, false),
        XpathBlockAction::RenderInner,
    );
    // An empty bound string with no else-block still renders the inner
    // template.
    assert_eq!(
        xpath_block_action(true, true, true, false, false),
        XpathBlockAction::RenderInner,
    );
    // An empty bound string with an else-block renders the else-block.
    assert_eq!(
        xpath_block_action(true, true, true, true, false),
        XpathBlockAction::RenderInverse,
    );
    // A non-string bound value falls to the else-block, strict error, or
    // nothing.
    assert_eq!(
        xpath_block_action(true, false, false, true, false),
        XpathBlockAction::RenderInverse,
    );
    assert_eq!(
        xpath_block_action(true, false, false, false, true),
        XpathBlockAction::StrictError,
    );
    assert_eq!(
        xpath_block_action(true, false, false, false, false),
        XpathBlockAction::Nothing,
    );
    assert_eq!(XpathHelper::name(), "xpath");
}

#[test]
fn reconstructed_url_is_normalized_by_the_parser() {
    // The parser's normalized form is returned, not the glued text: a bare
    // authority gains its root slash.
    let checked = reconstruct_target_url(
        &"http://upstream".to_string(),
        &"".to_string(),
        &"/x".to_string(),
    )
    .unwrap();
    assert_eq!(checked, "http://upstream/");
}

#[test]
fn upstream_unreachable_message_carries_the_detail() {
    let e = ProxyError::UpstreamUnreachable("connection refused".to_string());
    assert!(e.message().contains("connection refused"));
    let e = ProxyError::InvalidReconstructedUrl("bad".to_string());
    assert_eq!(e.message(), "Reconstructing target uri bad");
}

#[test]
fn xpath_nodeset_results_come_in_document_order() {
    let xml = "<node><el name=\"v1\" /><el name=\"v2\" /><el name=\"v3\" /></node>";
    let results = xpath_block_results(xml, "//el").unwrap();
    assert_eq!(results.len(), 3);
    for (k, expected) in ["v1", "v2", "v3"].iter().enumerate() {
        match &results[k] {
            serde_json::Value::Object(map) => {
                assert_eq!(map.get("name"), Some(&serde_json::Value::String(expected.to_string())));
            }
            other => panic!("expected an attribute map, got {:?}", other),
        }
    }
}
