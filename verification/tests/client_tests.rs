use http_client_vcr::builder::VcrClientBuilder;
use http_client_vcr::cassette::{Cassette, CassetteFormat};
use http_client_vcr::client::{Step, VcrClient, VcrMode};
use http_client_vcr::error::{ErrorKind, VcrError};
use http_client_vcr::filter::{FilterChain, HeaderFilter};
use http_client_vcr::http::{LiveRequest, LiveResponse};
use http_client_vcr::matcher::{DefaultMatcher, ExactMatcher};
use http_client_vcr::noop_client::{NoOpClient, PanickingNoOpClient};
use http_client_vcr::ordered_map::Headers;
use http_client_vcr::serializable::{SerializableRequest, SerializableResponse};
use std::path::PathBuf;

fn live(method: &str, url: &str) -> LiveRequest {
    LiveRequest {
        method: method.to_string(),
        url: url.to_string(),
        headers: Headers::new(),
        body: None,
        version: "None".to_string(),
    }
}

fn answer(status: u16, body: &str) -> LiveResponse {
    let mut headers = Headers::new();
    headers.insert("set-cookie".to_string(), vec!["sid=1".to_string()]);
    headers.insert("content-type".to_string(), vec!["text/plain".to_string()]);
    LiveResponse { status, headers, body: Some(body.to_string()), version: "None".to_string() }
}

fn stored_request(method: &str, url: &str) -> SerializableRequest {
    SerializableRequest::from_request(live(method, url))
}

fn stored_response(body: &str) -> SerializableResponse {
    SerializableResponse {
        status: 200,
        headers: Headers::new(),
        body: Some(body.to_string()),
        body_base64: None,
        version: "None".to_string(),
    }
}

fn cassette_of(entries: &[(&str, &str, &str)]) -> Cassette {
    let mut cassette = Cassette::new();
    for (method, url, body) in entries {
        cassette.record_interaction(stored_request(method, url), stored_response(body)).unwrap();
    }
    cassette.modified_since_load = false;
    cassette
}

/// Performs what a decision asks for, with `transport` as the network.
fn drive<C>(
    client: &mut VcrClient<C>,
    req: LiveRequest,
    calls: &mut usize,
    transport: &dyn Fn(&LiveRequest) -> LiveResponse,
) -> Result<LiveResponse, VcrError> {
    match client.send(&req, true) {
        Step::Respond(response) => Ok(response),
        Step::Fail(e) => Err(e),
        Step::Forward => {
            *calls += 1;
            Ok(transport(&req))
        }
        Step::ForwardAndRecord => {
            *calls += 1;
            let response = transport(&req);
            Ok(client.record_and_return_response(req, response))
        }
    }
}

fn body_of(step: Step) -> String {
    match step {
        Step::Respond(r) => r.body.unwrap(),
        other => panic!("a response was expected, not {:?}", other),
    }
}

fn failure_of(step: Step) -> VcrError {
    match step {
        Step::Fail(e) => e,
        other => panic!("a failure was expected, not {:?}", other),
    }
}

#[test]
fn two_recorded_uuids_replay_in_order_and_then_fail() {
    let cassette = cassette_of(&[("GET", "https://h/uuid", "A"), ("GET", "https://h/uuid", "B")]);
    let mut client = VcrClient::new((), VcrMode::Replay, cassette);
    assert_eq!(body_of(client.send(&live("GET", "https://h/uuid"), true)), "A");
    assert_eq!(body_of(client.send(&live("GET", "https://h/uuid"), true)), "B");
    let e = failure_of(client.send(&live("GET", "https://h/uuid"), true));
    assert_eq!(e.kind, ErrorKind::NoMatch);
    assert_eq!(e.status, 404);
    assert!(e.to_string().contains("No matching interaction found"));
}

#[test]
fn test_exhausted_interactions_error_handling() {
    let cassette = cassette_of(&[("GET", "https://httpbin.org/uuid", "u1"), ("GET", "https://httpbin.org/uuid", "u2")]);
    let mut client = VcrClient::new(NoOpClient::new(), VcrMode::Replay, cassette);
    client.set_matcher(Box::new(DefaultMatcher::new().with_headers(vec![])));
    for _ in 1..=2 {
        match client.send(&live("GET", "https://httpbin.org/uuid"), true) {
            Step::Respond(response) => assert_eq!(response.status, 200),
            other => panic!("a response was expected, not {:?}", other),
        }
    }
    let result = client.send(&live("GET", "https://httpbin.org/uuid"), true);
    let error = failure_of(result);
    let error_msg = error.to_string();
    assert!(error_msg.contains("No matching interaction found"), "Error should indicate no matching interaction");
}

#[test]
fn n_recorded_interactions_replay_once_each_in_recording_order() {
    for n in [0usize, 1, 3, 9] {
        let entries: Vec<(String, String, String)> =
            (0..n).map(|k| ("GET".to_string(), "https://h/same".to_string(), format!("body {}", k))).collect();
        let refs: Vec<(&str, &str, &str)> = entries.iter().map(|e| (e.0.as_str(), e.1.as_str(), e.2.as_str())).collect();
        let mut client = VcrClient::new((), VcrMode::Replay, cassette_of(&refs));
        for k in 0..n {
            assert_eq!(client.find_match(&live("GET", "https://h/same"), true), Some(k));
            assert_eq!(body_of(client.send(&live("GET", "https://h/same"), true)), format!("body {}", k));
        }
        assert_eq!(client.find_match(&live("GET", "https://h/same"), true), None);
        assert_eq!(failure_of(client.send(&live("GET", "https://h/same"), true)).kind, ErrorKind::NoMatch);
        assert_eq!(client.cassette().len(), n);
        assert!(!client.cassette().modified_since_load);
    }
}

#[test]
fn test_mixed_request_types_sequential_matching() {
    let cassette = cassette_of(&[
        ("GET", "https://httpbin.org/uuid", "uuid-1"),
        ("POST", "https://httpbin.org/post", "post-1"),
        ("GET", "https://httpbin.org/uuid", "uuid-2"),
        ("GET", "https://httpbin.org/json", "json-1"),
        ("GET", "https://httpbin.org/uuid", "uuid-3"),
    ]);
    let mut client = VcrClient::new((), VcrMode::Replay, cassette);
    assert_eq!(body_of(client.send(&live("GET", "https://httpbin.org/json"), true)), "json-1");
    assert_eq!(body_of(client.send(&live("GET", "https://httpbin.org/uuid"), true)), "uuid-1");
    assert_eq!(body_of(client.send(&live("GET", "https://httpbin.org/uuid"), true)), "uuid-2");
    assert_eq!(body_of(client.send(&live("POST", "https://httpbin.org/post"), true)), "post-1");
    assert_eq!(body_of(client.send(&live("GET", "https://httpbin.org/uuid"), true)), "uuid-3");
    assert_eq!(failure_of(client.send(&live("POST", "https://httpbin.org/post"), true)).kind, ErrorKind::NoMatch);
}

#[test]
fn test_partial_replay_restart_edge_case() {
    let entries = [
        ("GET", "https://httpbin.org/uuid", "u1"),
        ("GET", "https://httpbin.org/uuid", "u2"),
        ("GET", "https://httpbin.org/uuid", "u3"),
    ];
    let mut first = VcrClient::new((), VcrMode::Replay, cassette_of(&entries));
    let first_client_responses: Vec<String> =
        (0..2).map(|_| body_of(first.send(&live("GET", "https://httpbin.org/uuid"), true))).collect();
    let mut second = VcrClient::new((), VcrMode::Replay, cassette_of(&entries));
    let second_client_responses: Vec<String> =
        (0..2).map(|_| body_of(second.send(&live("GET", "https://httpbin.org/uuid"), true))).collect();
    assert_eq!(first_client_responses[0], second_client_responses[0]);
    assert_eq!(first_client_responses[1], second_client_responses[1]);
}

#[test]
fn the_failure_names_the_request_the_nearest_urls_and_the_methods() {
    let cassette = cassette_of(&[("POST", "https://a/yy", "1"), ("GET", "https://a/x", "2"), ("GET", "https://a/y", "3")]);
    let mut client = VcrClient::new((), VcrMode::Replay, cassette);
    let e = failure_of(client.send(&live("GET", "https://a/z"), true));
    assert_eq!(
        e.message,
        "No matching interaction found in cassette (Replay mode)\n\nRequest details:\n  Method: GET\n  URL: https://a/z\n\nCassette contains 3 recorded interactions.\n\nMost similar recorded URLs (by Levenshtein distance):\n  1. https://a/x (distance: 1)\n  2. https://a/y (distance: 1)\n  3. https://a/yy (distance: 2)\n\nRecorded methods: GET, POST"
    );
    let e = client.generate_no_match_error(&live("PUT", "u"), "any mode");
    assert!(e.message.starts_with("No matching interaction found in cassette (any mode)\n\nRequest details:\n  Method: PUT\n  URL: u\n\n"));
}

#[test]
fn the_failure_on_an_empty_cassette_says_so() {
    let mut client = VcrClient::new((), VcrMode::Filter, Cassette::new());
    let e = failure_of(client.send(&live("GET", "https://a/z"), true));
    assert_eq!(
        e.message,
        "No matching interaction found in cassette (Filter mode - no new requests allowed)\n\nRequest details:\n  Method: GET\n  URL: https://a/z\n\nCassette is empty - no recorded interactions available."
    );
}

#[test]
fn at_most_five_similar_urls_are_listed() {
    let cassette = cassette_of(&[
        ("GET", "https://a/1234567", "x"),
        ("PUT", "https://a/123456", "x"),
        ("GET", "https://a/12345", "x"),
        ("DELETE", "https://a/1234", "x"),
        ("GET", "https://a/123", "x"),
        ("PUT", "https://a/12", "x"),
        ("GET", "https://a/1", "x"),
    ]);
    let mut client = VcrClient::new((), VcrMode::Once, cassette);
    let e = failure_of(client.send(&live("HEAD", "https://a/"), true));
    assert_eq!(
        e.message,
        "No matching interaction found in cassette (Once mode)\n\nRequest details:\n  Method: HEAD\n  URL: https://a/\n\nCassette contains 7 recorded interactions.\n\nMost similar recorded URLs (by Levenshtein distance):\n  1. https://a/1 (distance: 1)\n  2. https://a/12 (distance: 2)\n  3. https://a/123 (distance: 3)\n  4. https://a/1234 (distance: 4)\n  5. https://a/12345 (distance: 5)\n\nRecorded methods: DELETE, GET, PUT"
    );
    let similar = http_client_vcr::diagnostics::find_similar_urls("https://a/", &client.cassette().interactions);
    assert_eq!(similar.len(), 5);
    assert_eq!(similar[0], ("https://a/1".to_string(), 1));
    assert_eq!(
        http_client_vcr::diagnostics::list_methods(&client.cassette().interactions),
        vec!["DELETE".to_string(), "GET".to_string(), "PUT".to_string()]
    );
}

#[test]
fn once_records_first_and_replays_second_without_the_transport() {
    let mut client = VcrClient::new((), VcrMode::Once, Cassette::new());
    let mut calls = 0;
    let transport = |_: &LiveRequest| answer(200, "fresh");
    let first = drive(&mut client, live("GET", "https://h/x"), &mut calls, &transport).unwrap();
    assert_eq!(first.body, Some("fresh".to_string()));
    assert_eq!(calls, 1);
    assert_eq!(client.cassette().len(), 1);
    assert!(client.cassette().modified_since_load);
    assert!(client.saves_on_drop());
    let second = drive(&mut client, live("GET", "https://h/x"), &mut calls, &transport).unwrap();
    assert_eq!(second.body, Some("fresh".to_string()));
    assert_eq!(second.status, 200);
    assert_eq!(calls, 1);
    assert_eq!(client.cassette().len(), 1);
}

#[test]
fn once_fails_on_a_cassette_that_holds_something_else() {
    let mut client = VcrClient::new((), VcrMode::Once, cassette_of(&[("GET", "https://h/known", "k")]));
    let mut calls = 0;
    let e = drive(&mut client, live("GET", "https://h/unknown"), &mut calls, &|_| answer(200, "n")).unwrap_err();
    assert_eq!(e.kind, ErrorKind::NoMatch);
    assert!(e.message.contains("(Once mode)"));
    assert_eq!(calls, 0);
    assert_eq!(client.cassette().len(), 1);
    assert!(!client.saves_on_drop());
}

#[test]
fn record_drops_what_was_on_record_at_the_first_call_only() {
    let mut client = VcrClient::new((), VcrMode::Record, cassette_of(&[("GET", "https://h/old", "o"), ("GET", "https://h/x", "o")]));
    let mut calls = 0;
    assert!(!client.saves_on_drop());
    let first = drive(&mut client, live("GET", "https://h/x"), &mut calls, &|_| answer(200, "n1")).unwrap();
    assert_eq!(first.body, Some("n1".to_string()));
    assert_eq!(client.cassette().len(), 1);
    let second = drive(&mut client, live("GET", "https://h/x"), &mut calls, &|_| answer(201, "n2")).unwrap();
    assert_eq!(second.body, Some("n2".to_string()));
    assert_eq!(calls, 2);
    assert_eq!(client.cassette().len(), 2);
    assert_eq!(client.cassette().interactions[0].response.body, Some("n1".to_string()));
    assert_eq!(client.cassette().interactions[1].response.status, 201);
    assert!(client.saves_on_drop());
}

#[test]
fn passthrough_calls_the_transport_and_stores_nothing() {
    let mut client = VcrClient::new((), VcrMode::Passthrough, cassette_of(&[("GET", "https://h/x", "recorded")]));
    let mut calls = 0;
    let r = drive(&mut client, live("GET", "https://h/x"), &mut calls, &|_| answer(200, "live")).unwrap();
    assert_eq!(r.body, Some("live".to_string()));
    assert_eq!(calls, 1);
    assert_eq!(client.cassette().len(), 1);
    assert!(matches!(client.handle_none_mode(), Step::Forward));
    assert!(matches!(client.handle_record_mode(), Step::ForwardAndRecord));
    assert_eq!(client.mode(), VcrMode::Passthrough);
    client.set_mode(VcrMode::Replay);
    assert_eq!(body_of(client.send(&live("GET", "https://h/x"), true)), "recorded");
}

#[test]
fn the_caller_keeps_the_header_that_is_removed_from_what_is_stored() {
    let mut client = VcrClient::new((), VcrMode::Record, Cassette::new());
    client.add_filter(Box::new(HeaderFilter::new().remove_header("set-cookie")));
    let mut request = live("GET", "https://h/x");
    request.headers.insert("authorization".to_string(), vec!["Bearer 1".to_string()]);
    assert!(matches!(client.send(&request, true), Step::ForwardAndRecord));
    let returned = client.record_and_return_response(request, answer(200, "b"));
    assert_eq!(returned.headers.get("set-cookie"), Some(&vec!["sid=1".to_string()]));
    assert_eq!(returned.headers.get("content-type"), Some(&vec!["text/plain".to_string()]));
    assert_eq!(returned.body, Some("b".to_string()));
    let stored = &client.cassette().interactions[0];
    assert_eq!(stored.response.headers.get("set-cookie"), None);
    assert_eq!(stored.response.headers.get("content-type"), Some(&vec!["text/plain".to_string()]));
    assert_eq!(stored.request.headers.get("authorization"), Some(&vec!["Bearer 1".to_string()]));
}

#[test]
fn what_is_returned_does_not_depend_on_the_filters() {
    let wreck = http_client_vcr::custom_filter::CustomFilter::new(|mut q: SerializableRequest, mut s: SerializableResponse| {
        q.url = String::new();
        s.status = 0;
        s.body = None;
        s.headers = Headers::new();
        (q, s)
    });
    let mut client = VcrClient::new((), VcrMode::Record, Cassette::new());
    client.set_filter_chain(FilterChain::new().add_filter(Box::new(wreck)));
    let returned = client.record_and_return_response(live("GET", "https://h/x"), answer(203, "<b>"));
    assert_eq!(returned.status, 203);
    assert_eq!(returned.body, Some("<b>".to_string()));
    assert_eq!(returned.headers.len(), 2);
    assert_eq!(client.cassette().interactions[0].response.status, 0);
    assert_eq!(client.cassette().interactions[0].request.url, "");
}

#[test]
fn an_empty_body_is_returned_and_stored_as_none_and_markup_is_stored_opaque() {
    let mut client = VcrClient::new((), VcrMode::Once, Cassette::new());
    let returned = client.record_and_return_response(live("GET", "https://h/1"), answer(204, ""));
    assert_eq!(returned.body, None);
    assert_eq!(client.cassette().interactions[0].response.body, None);
    assert_eq!(client.cassette().interactions[0].response.body_base64, None);
    let returned = client.record_and_return_response(live("GET", "https://h/2"), answer(200, "<a>"));
    assert_eq!(returned.body, Some("<a>".to_string()));
    assert_eq!(client.cassette().interactions[1].response.body, None);
    assert_eq!(client.cassette().interactions[1].response.body_base64, Some("PGE+".to_string()));
    assert_eq!(body_of(client.send(&live("GET", "https://h/2"), true)), "<a>");
}

#[test]
fn a_live_secret_matches_what_was_stored_filtered() {
    let chain = || FilterChain::new().add_filter(Box::new(HeaderFilter::new().replace_header("authorization", "[A]")));
    let mut recorder = VcrClient::new((), VcrMode::Record, Cassette::new());
    recorder.set_filter_chain(chain());
    let mut request = live("GET", "https://h/x");
    request.headers.insert("authorization".to_string(), vec!["Bearer real".to_string()]);
    recorder.record_and_return_response(request.clone(), answer(200, "ok"));
    let stored = recorder.cassette().interactions[0].clone();
    assert_eq!(stored.request.headers.get("authorization"), Some(&vec!["[A]".to_string()]));
    let mut cassette = Cassette::new();
    cassette.record_interaction(stored.request, stored.response).unwrap();
    let mut replayer = VcrClient::new((), VcrMode::Replay, cassette);
    assert_eq!(replayer.find_match(&request, true), None);
    assert_eq!(replayer.find_match(&request, false), None);
    replayer.set_filter_chain(chain());
    assert_eq!(replayer.find_match(&request, true), Some(0));
    assert_eq!(replayer.find_match(&request, false), None);
    assert_eq!(body_of(replayer.send(&request, true)), "ok");
}

#[test]
fn the_matcher_can_be_changed() {
    let mut cassette = Cassette::new();
    let mut recorded = stored_request("GET", "https://h/x");
    recorded.headers.insert("x-extra".to_string(), vec!["1".to_string()]);
    cassette.record_interaction(recorded, stored_response("r")).unwrap();
    let mut client = VcrClient::new((), VcrMode::Replay, cassette);
    assert_eq!(client.find_match(&live("GET", "https://h/x"), true), Some(0));
    client.set_matcher(Box::new(ExactMatcher));
    assert_eq!(client.find_match(&live("GET", "https://h/x"), true), None);
}

#[test]
fn filters_can_be_run_over_the_whole_cassette() {
    let mut cassette = Cassette::new();
    for k in 0..3 {
        let mut q = stored_request("GET", "https://h/x");
        q.headers.insert("Authorization".to_string(), vec![format!("Bearer {}", k)]);
        cassette.record_interaction(q, stored_response("r")).unwrap();
    }
    let mut client = VcrClient::new((), VcrMode::Filter, cassette.with_path(PathBuf::from("c.yaml")));
    client.add_filter(Box::new(HeaderFilter::new().remove_auth_headers()));
    assert!(client.apply_filters_to_cassette().is_ok());
    assert_eq!(client.cassette().len(), 3);
    for interaction in &client.cassette().interactions {
        assert!(interaction.request.headers.is_empty());
    }
    assert!(client.save_cassette().is_ok());
    assert!(client.filter_and_save_cassette().is_ok());
    let mut pathless = VcrClient::new((), VcrMode::Filter, Cassette::new());
    assert_eq!(pathless.save_cassette().unwrap_err().kind, ErrorKind::InvalidConfiguration);
    assert_eq!(pathless.filter_and_save_cassette().unwrap_err().message, "No path specified for cassette");
}

#[test]
fn building_needs_a_transport() {
    let builder: VcrClientBuilder<NoOpClient> = VcrClient::builder(PathBuf::from("fixtures/c.yaml"));
    assert!(!builder.is_ready());
    assert_eq!(builder.cassette_path(), &PathBuf::from("fixtures/c.yaml"));
    let e = match builder.mode(VcrMode::Replay).build(None) {
        Err(e) => e,
        Ok(_) => panic!("a failure was expected"),
    };
    assert_eq!(e.kind, ErrorKind::InvalidConfiguration);
    assert_eq!(e.status, 400);
    assert_eq!(e.message, "Inner HttpClient is required");
}

#[test]
fn a_built_client_has_what_the_builder_was_given() {
    let builder = VcrClientBuilder::new(PathBuf::from("dir"))
        .inner_client(7u8)
        .format(CassetteFormat::Directory)
        .add_filter(Box::new(HeaderFilter::new().remove_header("content-type")))
        .matcher(Box::new(ExactMatcher));
    assert!(builder.is_ready());
    let mut client = builder.build(None).ok().unwrap();
    assert_eq!(*client.inner(), 7);
    assert_eq!(client.mode(), VcrMode::Once);
    assert!(client.cassette().is_empty());
    assert_eq!(client.cassette().path, Some(PathBuf::from("dir")));
    assert_eq!(client.cassette().format, CassetteFormat::Directory);
    assert!(!client.cassette().modified_since_load);
    client.record_and_return_response(live("GET", "https://h/x"), answer(200, "b"));
    assert!(!client.cassette().interactions[0].response.headers.contains_key("content-type"));

    let existing = cassette_of(&[("GET", "https://h/x", "loaded")]).with_path(PathBuf::from("other"));
    let mut client = VcrClientBuilder::new(PathBuf::from("dir"))
        .inner_client(())
        .mode(VcrMode::Replay)
        .format(CassetteFormat::Directory)
        .filter_chain(FilterChain::new())
        .build(Some(existing))
        .ok()
        .unwrap();
    assert_eq!(client.cassette().path, Some(PathBuf::from("other")));
    assert_eq!(client.cassette().format, CassetteFormat::File);
    let mut request = live("GET", "https://h/x");
    request.headers.insert("x-extra".to_string(), vec!["1".to_string()]);
    assert_eq!(body_of(client.send(&request, true)), "loaded");
}

#[test]
fn the_stand_in_transports_word_their_refusals() {
    let e = NoOpClient::new().send(&live("GET", "https://h/x"));
    assert_eq!(e.kind, ErrorKind::Transport);
    assert_eq!(e.status, 500);
    assert_eq!(
        e.message,
        "NoOpClient: Real HTTP requests are not allowed. This indicates a VCR configuration issue - requests should be replayed from cassette. Attempted request: GET https://h/x"
    );
    assert_eq!(NoOpClient::with_message("no").send(&live("PUT", "u")).message, "no Attempted request: PUT u");
    assert_eq!(NoOpClient::default().send(&live("PUT", "u")).status, 500);
    assert_eq!(
        NoOpClient::panicking().panic_text(&live("GET", "u")),
        "PanickingNoOpClient: Unexpected HTTP request detected! This should not happen in VCR replay mode. Attempted request: GET u - Check your VCR configuration and cassette contents."
    );
    assert_eq!(
        PanickingNoOpClient::with_message("stop").panic_text(&live("GET", "u")),
        "stop Attempted request: GET u - Check your VCR configuration and cassette contents."
    );
    assert_eq!(PanickingNoOpClient::default().panic_text(&live("A", "b")), PanickingNoOpClient::new().panic_text(&live("A", "b")));
}

#[test]
fn distances_are_levenshtein_distances_counted_in_characters() {
    let cassette = cassette_of(&[
        ("GET", "sitting", "x"),
        ("GET", "kitten", "x"),
        ("GET", "", "x"),
        ("GET", "k\u{e9}tten", "x"),
        ("GET", "mitten", "x"),
    ]);
    let similar = http_client_vcr::diagnostics::find_similar_urls("kitten", &cassette.interactions);
    assert_eq!(
        similar,
        vec![
            ("kitten".to_string(), 0),
            ("k\u{e9}tten".to_string(), 1),
            ("mitten".to_string(), 1),
            ("sitting".to_string(), 3),
            ("".to_string(), 6),
        ]
    );
}
