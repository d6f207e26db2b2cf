use http_client_vcr::http::LiveRequest;
use http_client_vcr::matcher::{DefaultMatcher, ExactMatcher, RequestMatcher};
use http_client_vcr::ordered_map::Headers;
use http_client_vcr::serializable::SerializableRequest;

fn stored(method: &str, url: &str, headers: &[(&str, &[&str])], body: Option<&str>) -> SerializableRequest {
    let mut h = Headers::new();
    for (name, values) in headers {
        h.insert(name.to_string(), values.iter().map(|v| v.to_string()).collect());
    }
    SerializableRequest {
        method: method.to_string(),
        url: url.to_string(),
        headers: h,
        body: body.map(|b| b.to_string()),
        body_base64: None,
        version: "None".to_string(),
    }
}

fn live(method: &str, url: &str, headers: &[(&str, &[&str])], body: Option<&str>) -> LiveRequest {
    let s = stored(method, url, headers, body);
    LiveRequest { method: s.method, url: s.url, headers: s.headers, body: s.body, version: s.version }
}

#[test]
fn with_no_header_compared_requests_that_differ_in_authorization_match_the_same_record() {
    let matcher = DefaultMatcher::new().with_headers(vec![]);
    let recorded = stored("GET", "https://a/x", &[], None);
    let one = stored("GET", "https://a/x", &[("Authorization", &["Bearer 1"])], None);
    let two = stored("GET", "https://a/x", &[("Authorization", &["Bearer 2"])], None);
    assert!(matcher.matches_serializable(&one, &recorded));
    assert!(matcher.matches_serializable(&two, &recorded));
    let one = live("GET", "https://a/x", &[("authorization", &["Bearer 1"])], None);
    let two = live("GET", "https://a/x", &[("authorization", &["Bearer 2"])], None);
    assert!(matcher.matches(&one, &recorded));
    assert!(matcher.matches(&two, &recorded));
    assert!(!matcher.matches(&live("POST", "https://a/x", &[], None), &recorded));
    assert!(!matcher.matches(&live("GET", "https://a/y", &[], None), &recorded));
}

#[test]
fn the_default_matcher_compares_four_headers() {
    let matcher = DefaultMatcher::default();
    let recorded = stored("GET", "https://a/x", &[("authorization", &["A"]), ("x-other", &["1"])], None);
    assert!(matcher.matches_serializable(&stored("GET", "https://a/x", &[("authorization", &["A"]), ("x-other", &["2"])], None), &recorded));
    assert!(!matcher.matches_serializable(&stored("GET", "https://a/x", &[("authorization", &["B"])], None), &recorded));
    assert!(!matcher.matches_serializable(&stored("GET", "https://a/x", &[], None), &recorded));
    assert!(!matcher.matches_serializable(&stored("GET", "https://a/x", &[("authorization", &["A"]), ("cookie", &["c"])], None), &recorded));
    assert!(!matcher.matches_serializable(&stored("GET", "https://a/x", &[("authorization", &["A"]), ("content-type", &["c"])], None), &recorded));
    assert!(!matcher.matches_serializable(&stored("GET", "https://a/x", &[("authorization", &["A"]), ("user-agent", &["c"])], None), &recorded));
    assert!(!matcher.matches_serializable(&stored("POST", "https://a/x", &[("authorization", &["A"])], None), &recorded));
    assert!(!matcher.matches_serializable(&stored("GET", "https://a/y", &[("authorization", &["A"])], None), &recorded));
}

#[test]
fn header_values_are_compared_as_whole_lists() {
    let matcher = DefaultMatcher::new().with_headers(vec!["accept".to_string()]);
    let recorded = stored("GET", "u", &[("accept", &["a", "b"])], None);
    assert!(matcher.matches_serializable(&stored("GET", "u", &[("accept", &["a", "b"])], None), &recorded));
    assert!(!matcher.matches_serializable(&stored("GET", "u", &[("accept", &["b", "a"])], None), &recorded));
    assert!(!matcher.matches_serializable(&stored("GET", "u", &[("accept", &["a"])], None), &recorded));
}

#[test]
fn without_cookies_ignores_cookies() {
    let matcher = DefaultMatcher::without_cookies();
    let recorded = stored("GET", "u", &[("cookie", &["a"])], None);
    assert!(matcher.matches_serializable(&stored("GET", "u", &[("cookie", &["b"])], None), &recorded));
    assert!(matcher.matches_serializable(&stored("GET", "u", &[], None), &recorded));
    assert!(!DefaultMatcher::new().matches_serializable(&stored("GET", "u", &[], None), &recorded));
    assert!(!matcher.matches_serializable(&stored("GET", "u", &[("user-agent", &["x"])], None), &recorded));
}

#[test]
fn method_and_url_can_be_left_out() {
    let recorded = stored("GET", "u", &[], None);
    let other = stored("POST", "v", &[], None);
    assert!(!DefaultMatcher::new().with_method(false).matches_serializable(&other, &recorded));
    assert!(!DefaultMatcher::new().with_url(false).matches_serializable(&other, &recorded));
    assert!(DefaultMatcher::new().with_method(false).with_url(false).matches_serializable(&other, &recorded));
    assert!(DefaultMatcher::new().with_method(false).with_url(false).matches(&live("PUT", "w", &[], None), &recorded));
}

#[test]
fn the_body_takes_part_where_it_is_asked_for() {
    let matcher = DefaultMatcher::new().with_body(true);
    let recorded = stored("POST", "u", &[], Some("a=1"));
    assert!(matcher.matches_serializable(&stored("POST", "u", &[], Some("a=1")), &recorded));
    assert!(!matcher.matches_serializable(&stored("POST", "u", &[], Some("a=2")), &recorded));
    assert!(!matcher.matches_serializable(&stored("POST", "u", &[], None), &recorded));
    assert!(DefaultMatcher::new().matches_serializable(&stored("POST", "u", &[], Some("a=2")), &recorded));
    assert!(matcher.matches(&live("POST", "u", &[], Some("a=1")), &recorded));
    assert!(!matcher.matches(&live("POST", "u", &[], Some("a=2")), &recorded));
    let mut opaque = stored("POST", "u", &[], None);
    opaque.body_base64 = Some("PGE+".to_string());
    assert!(matcher.matches(&live("POST", "u", &[], Some("<a>")), &opaque));
    assert!(!matcher.matches(&live("POST", "u", &[], Some("<b>")), &opaque));
}

#[test]
fn a_live_request_is_looked_up_by_lower_case_names() {
    let matcher = DefaultMatcher::new().with_headers(vec!["Authorization".to_string()]);
    let recorded = stored("GET", "u", &[("Authorization", &["A"])], None);
    assert!(matcher.matches(&live("GET", "u", &[("authorization", &["A"])], None), &recorded));
    assert!(!matcher.matches(&live("GET", "u", &[("Authorization", &["A"])], None), &recorded));
    assert!(!matcher.matches_serializable(&stored("GET", "u", &[("authorization", &["A"])], None), &recorded));
}

#[test]
fn the_exact_matcher_compares_all_headers() {
    let matcher = ExactMatcher;
    let recorded = stored("GET", "u", &[("a", &["1"]), ("b", &["2"])], Some("body"));
    assert!(matcher.matches_serializable(&stored("GET", "u", &[("b", &["2"]), ("a", &["1"])], None), &recorded));
    assert!(!matcher.matches_serializable(&stored("GET", "u", &[("a", &["1"])], None), &recorded));
    assert!(!matcher.matches_serializable(&stored("GET", "u", &[("a", &["1"]), ("b", &["2"]), ("c", &[])], None), &recorded));
    assert!(!matcher.matches_serializable(&stored("GET", "u", &[("a", &["1"]), ("b", &["3"])], None), &recorded));
    assert!(!matcher.matches_serializable(&stored("PUT", "u", &[("a", &["1"]), ("b", &["2"])], None), &recorded));
    assert!(!matcher.matches_serializable(&stored("GET", "v", &[("a", &["1"]), ("b", &["2"])], None), &recorded));
    assert!(matcher.matches(&live("GET", "u", &[("b", &["2"]), ("a", &["1"])], None), &recorded));
    assert!(!matcher.matches(&live("GET", "u", &[], None), &recorded));
}
