use http_client_vcr::cassette::{Cassette, CassetteFormat};
use http_client_vcr::client::{Step, VcrClient, VcrMode};
use http_client_vcr::http::{LiveRequest, LiveResponse};
use http_client_vcr::matcher::DefaultMatcher;
use http_client_vcr::ordered_map::{Fields, Headers};
use std::path::PathBuf;

fn live(method: &str, url: &str, body: Option<&str>) -> LiveRequest {
    LiveRequest {
        method: method.to_string(),
        url: url.to_string(),
        headers: Headers::new(),
        body: body.map(|b| b.to_string()),
        version: "None".to_string(),
    }
}

fn answer(body: &str) -> LiveResponse {
    let mut headers = Headers::new();
    headers.insert("content-type".to_string(), vec!["text/plain".to_string()]);
    LiveResponse { status: 200, headers, body: Some(body.to_string()), version: "Some(Http1_1)".to_string() }
}

/// Records the exchanges, lays the cassette out as a directory, and loads
/// it again for replay.
fn record_and_reload(name: &str, exchanges: &[(LiveRequest, LiveResponse)]) -> VcrClient<()> {
    let cassette = Cassette::new().with_path(PathBuf::from(name)).with_format(CassetteFormat::Directory);
    let mut recorder = VcrClient::new((), VcrMode::Record, cassette);
    recorder.set_matcher(Box::new(DefaultMatcher::new().with_headers(vec![])));
    for (request, response) in exchanges {
        assert!(matches!(recorder.send(request, true), Step::ForwardAndRecord));
        let returned = recorder.record_and_return_response(request.clone(), response.clone());
        assert_eq!(returned.body, response.body);
    }
    assert!(recorder.saves_on_drop());
    let layout = recorder.cassette().directory_layout();
    let mut files = Fields::new();
    for file in &layout.bodies {
        assert!(!files.contains_key(&file.name));
        files.insert(file.name.clone(), file.content.clone());
    }
    let loaded = Cassette::from_directory(PathBuf::from(name), &layout.manifest, &files).unwrap();
    assert_eq!(loaded.len(), exchanges.len());
    let mut replayer = VcrClient::new((), VcrMode::Replay, loaded);
    replayer.set_matcher(Box::new(DefaultMatcher::new().with_headers(vec![])));
    replayer
}

fn replay(client: &mut VcrClient<()>, request: &LiveRequest) -> LiveResponse {
    match client.send(request, true) {
        Step::Respond(response) => response,
        other => panic!("a response was expected, not {:?}", other),
    }
}

#[test]
fn test_multiple_requests_directory_format() {
    let requests = vec![
        live("GET", "https://httpbin.org/get?test=1", None),
        live("GET", "https://httpbin.org/get?test=2", None),
        live("POST", "https://httpbin.org/post", Some("test body for POST request")),
        live("PUT", "https://httpbin.org/put", Some("test body for PUT request")),
    ];
    let exchanges: Vec<(LiveRequest, LiveResponse)> =
        requests.iter().enumerate().map(|(k, r)| (r.clone(), answer(&format!("answer {}", k)))).collect();
    let mut client = record_and_reload("multiple_requests_test", &exchanges);
    for (k, request) in requests.iter().enumerate().rev() {
        let response = replay(&mut client, request);
        assert_eq!(response.status, 200);
        assert_eq!(response.body, Some(format!("answer {}", k)));
    }
}

#[test]
fn test_repeated_requests_directory_format() {
    let request = live("GET", "https://httpbin.org/json", None);
    let exchanges: Vec<(LiveRequest, LiveResponse)> =
        (0..3).map(|_| (request.clone(), answer("{\"slideshow\":{}}"))).collect();
    let mut client = record_and_reload("repeated_requests_test", &exchanges);
    for _ in 0..3 {
        let response = replay(&mut client, &request);
        assert_eq!(response.status.to_string(), "200");
        assert_eq!(response.body, Some("{\"slideshow\":{}}".to_string()));
    }
}

#[test]
fn test_json_and_text_responses_directory_format() {
    let bodies = [
        ("https://httpbin.org/json", "{\"slideshow\": {\"title\": \"Sample\"}}"),
        ("https://httpbin.org/html", "<!DOCTYPE html>\n<html><body><h1>Herman Melville</h1></body></html>"),
        ("https://httpbin.org/xml", "<?xml version='1.0' encoding='us-ascii'?>\n<slideshow title=\"\u{e9}\"/>"),
    ];
    let exchanges: Vec<(LiveRequest, LiveResponse)> =
        bodies.iter().map(|(url, body)| (live("GET", url, None), answer(body))).collect();
    let mut client = record_and_reload("json_text_responses_test", &exchanges);
    assert_eq!(client.cassette().interactions[0].response.body_base64, None);
    assert!(client.cassette().interactions[1].response.body_base64.is_some());
    assert!(client.cassette().interactions[2].response.body.is_none());
    for (url, body) in bodies {
        let response = replay(&mut client, &live("GET", url, None));
        let text = response.body.unwrap();
        assert!(!text.is_empty(), "Response body should not be empty for {url}");
        assert_eq!(text, body);
    }
}

#[test]
fn test_sequential_identical_requests_directory_format() {
    let request = live("GET", "https://httpbin.org/uuid", None);
    let exchanges: Vec<(LiveRequest, LiveResponse)> =
        (1..=3).map(|k| (request.clone(), answer(&format!("{{\"uuid\": \"{}\"}}", k)))).collect();
    let mut client = record_and_reload("sequential_identical_requests_test", &exchanges);
    let responses: Vec<String> = (0..3).map(|_| replay(&mut client, &request).body.unwrap()).collect();
    assert_ne!(responses[0], responses[1], "First and second responses should be different");
    assert_ne!(responses[1], responses[2], "Second and third responses should be different");
    assert_ne!(responses[0], responses[2], "First and third responses should be different");
    assert_eq!(responses[0], "{\"uuid\": \"1\"}");
    assert_eq!(responses[1], "{\"uuid\": \"2\"}");
    assert_eq!(responses[2], "{\"uuid\": \"3\"}");
    assert!(matches!(client.send(&request, true), Step::Fail(_)));
}
