use http_client_vcr::body_filter::BodyFilter;
use http_client_vcr::custom_filter::CustomFilter;
use http_client_vcr::error::ErrorKind;
use http_client_vcr::filter::{Filter, FilterChain, HeaderFilter};
use http_client_vcr::json::{JsonMember, JsonValue};
use http_client_vcr::ordered_map::Headers;
use http_client_vcr::serializable::{SerializableRequest, SerializableResponse};
use http_client_vcr::url_filter::UrlFilter;

fn request(url: &str, body: Option<&str>) -> SerializableRequest {
    let mut headers = Headers::new();
    headers.insert("Authorization".to_string(), vec!["Bearer s3cret".to_string()]);
    headers.insert("accept".to_string(), vec!["a".to_string(), "b".to_string()]);
    headers.insert("X-Token".to_string(), vec!["t1".to_string(), "t2".to_string()]);
    SerializableRequest {
        method: "GET".to_string(),
        url: url.to_string(),
        headers,
        body: body.map(|b| b.to_string()),
        body_base64: None,
        version: "None".to_string(),
    }
}

fn response(body: Option<&str>) -> SerializableResponse {
    let mut headers = Headers::new();
    headers.insert("Set-Cookie".to_string(), vec!["sid=1".to_string()]);
    headers.insert("content-type".to_string(), vec!["text/plain".to_string()]);
    SerializableResponse {
        status: 200,
        headers,
        body: body.map(|b| b.to_string()),
        body_base64: None,
        version: "None".to_string(),
    }
}

fn filtered_body(filter: &BodyFilter, body: &str) -> String {
    let mut b = Some(body.to_string());
    filter.filter_body(&mut b);
    b.unwrap()
}

#[test]
fn header_filter_removes_and_replaces() {
    let filter = HeaderFilter::new().remove_header("Authorization").replace_header("X-Token", "[T]").replace_header("absent", "v");
    let mut r = request("https://a/", None);
    filter.filter_request(&mut r);
    assert_eq!(r.headers.len(), 2);
    assert_eq!(r.headers.get("Authorization"), None);
    assert_eq!(r.headers.get("accept"), Some(&vec!["a".to_string(), "b".to_string()]));
    assert_eq!(r.headers.get("X-Token"), Some(&vec!["[T]".to_string()]));
    assert_eq!(r.headers.get("absent"), None);
    assert_eq!(r.url, "https://a/");
}

#[test]
fn header_filter_is_exact_about_names() {
    let filter = HeaderFilter::new().remove_header("authorization");
    let mut r = request("https://a/", None);
    filter.filter_request(&mut r);
    assert!(r.headers.contains_key("Authorization"));
}

#[test]
fn removing_wins_over_replacing() {
    let filter = HeaderFilter::new().replace_header("X-Token", "[T]").remove_header("X-Token");
    let mut r = request("https://a/", None);
    filter.filter_request(&mut r);
    assert_eq!(r.headers.get("X-Token"), None);
}

#[test]
fn auth_headers_are_removed_from_responses_too() {
    let filter = HeaderFilter::new().remove_auth_headers();
    let mut r = response(Some("x"));
    filter.filter_response(&mut r);
    assert_eq!(r.headers.len(), 1);
    assert!(r.headers.contains_key("content-type"));
    let mut q = request("https://a/", None);
    filter.filter_request(&mut q);
    assert!(!q.headers.contains_key("Authorization"));
    assert!(q.headers.contains_key("X-Token"));
    let mut h = Headers::new();
    for name in ["Authorization", "Cookie", "Set-Cookie", "X-API-Key", "X-Auth-Token", "Other"] {
        h.insert(name.to_string(), vec!["v".to_string()]);
    }
    filter.filter_headers(&mut h);
    assert_eq!(h.len(), 1);
    assert!(h.contains_key("Other"));
}

#[test]
fn header_filter_is_idempotent() {
    let filter = HeaderFilter::new().remove_auth_headers().replace_header("accept", "x");
    let mut once = request("https://a/", None);
    filter.filter_request(&mut once);
    let mut twice = once.clone();
    filter.filter_request(&mut twice);
    assert!(once.headers.same_as(&twice.headers));
}

#[test]
fn body_filter_removes_keys_at_every_depth() {
    let filter = BodyFilter::new().remove_common_sensitive_keys();
    let body = r#"{"user":"a","password":"p","nested":{"token":"t","keep":1},"list":[{"secret":"s"},2,[{"api_key":"k","x":null}]]}"#;
    assert_eq!(
        filtered_body(&filter, body),
        r#"{"list":[{},2,[{"x":null}]],"nested":{"keep":1},"user":"a"}"#
    );
}

#[test]
fn body_filter_replaces_values_by_strings() {
    let filter = BodyFilter::new().replace_json_key("user", "[U]").replace_json_key("n", "[N]");
    let body = r#"{"user":{"deep":true},"a":[{"user":1,"n":[1,2]}],"other":"user"}"#;
    assert_eq!(
        filtered_body(&filter, body),
        r#"{"a":[{"n":"[N]","user":"[U]"}],"other":"user","user":"[U]"}"#
    );
}

#[test]
fn a_key_that_is_removed_is_not_replaced() {
    let filter = BodyFilter::new().replace_json_key("k", "v").remove_json_key("k");
    assert_eq!(filtered_body(&filter, r#"{"k":1,"j":2}"#), r#"{"j":2}"#);
}

#[test]
fn body_filter_keeps_numbers_and_other_values() {
    let filter = BodyFilter::new().remove_json_key("gone");
    let body = r#"{ "f": 1.5, "big": 18446744073709551615, "neg": -3, "e": 1e100, "t": true, "z": null, "s": "é\n", "gone": 0 }"#;
    assert_eq!(
        filtered_body(&filter, body),
        "{\"big\":18446744073709551615,\"e\":1e+100,\"f\":1.5,\"neg\":-3,\"s\":\"\u{e9}\\n\",\"t\":true,\"z\":null}"
    );
    assert_eq!(filtered_body(&filter, "12"), "12");
    assert_eq!(filtered_body(&filter, " \"s\" "), "\"s\"");
}

#[test]
fn body_filter_applies_patterns_to_what_is_no_json() {
    let filter = BodyFilter::new()
        .replace_regex("token=[a-z0-9]+", "token=X")
        .unwrap()
        .replace_regex("X rest", "Y")
        .unwrap()
        .remove_json_key("token");
    assert_eq!(filtered_body(&filter, "token=abc123 rest, token=z9"), "token=Y, token=X");
    assert_eq!(filtered_body(&filter, r#"{"token":"token=abc"}"#), "{}");
    let mut none: Option<String> = None;
    filter.filter_body(&mut none);
    assert_eq!(none, None);
}

#[test]
fn body_filter_leaves_opaque_payloads() {
    let filter = BodyFilter::new().remove_json_key("a");
    let mut r = request("https://a/", Some(r#"{"a":1}"#));
    r.body_base64 = Some("eyJhIjoxfQ==".to_string());
    filter.filter_request(&mut r);
    assert_eq!(r.body, Some("{}".to_string()));
    assert_eq!(r.body_base64, Some("eyJhIjoxfQ==".to_string()));
    let mut s = response(Some(r#"[{"a":1}]"#));
    filter.filter_response(&mut s);
    assert_eq!(s.body, Some("[{}]".to_string()));
}

#[test]
fn a_pattern_that_does_not_compile_is_refused() {
    let e = BodyFilter::new().replace_regex("(", "x").unwrap_err();
    assert_eq!(e.kind, ErrorKind::InvalidConfiguration);
    assert_eq!(e.status, 400);
    assert_eq!(e.message, "Invalid pattern: (");
}

#[test]
fn json_values_are_filtered_as_trees() {
    let filter = BodyFilter::new().remove_json_key("a").replace_json_key("b", "B");
    let tree = JsonValue::Array(vec![
        JsonValue::Object(vec![
            JsonMember { key: "a".to_string(), value: JsonValue::Bool(true) },
            JsonMember { key: "b".to_string(), value: JsonValue::Null },
            JsonMember { key: "c".to_string(), value: JsonValue::String("s".to_string()) },
        ]),
        JsonValue::Null,
    ]);
    let out = filter.filter_json_value(&tree);
    assert_eq!(http_client_vcr::json::to_text(&out), Some(r#"[{"b":"B","c":"s"},null]"#.to_string()));
    assert!(http_client_vcr::json::parse("{not json").is_none());
    match http_client_vcr::json::parse(r#"{"z":1,"a":[true]}"#) {
        Some(JsonValue::Object(members)) => {
            let keys: Vec<&str> = members.iter().map(|m| m.key.as_str()).collect();
            assert_eq!(keys, vec!["a", "z"]);
        }
        _ => panic!("an object was expected"),
    }
}

#[test]
fn url_filter_removes_parameters() {
    let filter = UrlFilter::new().remove_common_sensitive_params();
    assert_eq!(
        filter.filter_url("https://example.com/path?api_key=SECRET&q=1&token=t&key=k&access_token=a&r=2#frag"),
        "https://example.com/path?q=1&r=2#frag"
    );
    assert_eq!(filter.filter_url("https://example.com/path?api_key=SECRET"), "https://example.com/path?");
    assert_eq!(filter.filter_url("https://example.com/path"), "https://example.com/path?");
    assert_eq!(filter.filter_url("not a url"), "not a url");
}

#[test]
fn url_filter_replaces_values_and_encodes_anew() {
    let filter = UrlFilter::new().replace_query_param("user", "a b&c").remove_query_param("x y");
    let mut r = request("https://example.com/?user=bob&x%20y=1&n=%C3%A9&user=al", None);
    filter.filter_request(&mut r);
    assert_eq!(r.url, "https://example.com/?user=a+b%26c&n=%C3%A9&user=a+b%26c");
    let mut s = response(Some("user=bob"));
    filter.filter_response(&mut s);
    assert_eq!(s.body, Some("user=bob".to_string()));
    assert_eq!(s.headers.len(), 2);
}

#[test]
fn a_chain_runs_its_filters_in_order() {
    let first = CustomFilter::new(|mut q: SerializableRequest, mut s: SerializableResponse| {
        q.method = format!("{}1", q.method);
        s.version = format!("{}1", s.version);
        (q, s)
    });
    let second = CustomFilter::new(|mut q: SerializableRequest, mut s: SerializableResponse| {
        q.method = format!("{}2", q.method);
        s.version = format!("{}2", s.version);
        (q, s)
    });
    let chain = FilterChain::new().add_filter(Box::new(first)).add_filter(Box::new(second)).add_filter(Box::new(HeaderFilter::new().remove_header("accept")));
    let mut q = request("https://a/", None);
    chain.filter_request(&mut q);
    assert_eq!(q.method, "GET12");
    assert!(!q.headers.contains_key("accept"));
    let mut s = response(None);
    chain.filter_response(&mut s);
    assert_eq!(s.version, "None12");
    let empty = FilterChain::default();
    let mut untouched = request("https://a/", Some("b"));
    empty.filter_request(&mut untouched);
    assert_eq!(untouched.body, Some("b".to_string()));
    assert_eq!(untouched.headers.len(), 3);
}

#[test]
fn a_custom_filter_sees_a_placeholder_beside_what_it_filters() {
    let filter = CustomFilter::new(|mut q: SerializableRequest, mut s: SerializableResponse| {
        let seen_request = format!("{} {} {} {}", q.method, q.url, q.version, q.headers.len());
        let seen_response = format!("{} {} {}", s.status, s.version, s.headers.len());
        q.body = Some(seen_response);
        s.body = Some(seen_request);
        (q, s)
    });
    let mut q = request("https://a/", None);
    filter.filter_request(&mut q);
    assert_eq!(q.body, Some("200 Http1_1 0".to_string()));
    let mut s = response(None);
    filter.filter_response(&mut s);
    assert_eq!(s.body, Some("GET https://example.com Http1_1 0".to_string()));
}

#[test]
fn url_filter_filters_urls_of_many_megabytes() {
    let big = "a".repeat(17 * 1024 * 1024);
    let url = format!("https://example.com/p?api_key=SECRET&big={}&token=t#frag", big);
    let filter = UrlFilter::new().remove_common_sensitive_params();
    assert_eq!(filter.filter_url(&url), format!("https://example.com/p?big={}#frag", big));
    let long_path = format!("https://example.com/{}?key=1&x=2", big);
    assert_eq!(filter.filter_url(&long_path), format!("https://example.com/{}?x=2", big));
}
