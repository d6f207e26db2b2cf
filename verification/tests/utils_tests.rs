use http_client_vcr::cassette::Cassette;
use http_client_vcr::filter::{FilterChain, HeaderFilter};
use http_client_vcr::ordered_map::Headers;
use http_client_vcr::serializable::{SerializableRequest, SerializableResponse};
use http_client_vcr::utils::{
    analyze_cassette_file, extract_username_from_cassette, filter_cassette_file, looks_like_form,
    mask_credentials, mutate_all_interactions, mutate_all_requests, mutate_all_responses,
    remove_header_from_all_requests, replace_form_field, replace_form_field_in_all_requests,
    replace_header_in_all_requests, replace_username, replace_username_in_all_requests,
    sanitize_cassette_for_sharing, sanitize_request, sanitize_response,
    scrub_urls_in_all_requests, set_test_password_in_cassette, strip_all_cookies,
    strip_all_credentials_from_requests,
};
use std::path::PathBuf;

fn request(url: &str, headers: &[(&str, &[&str])], body: Option<&str>) -> SerializableRequest {
    let mut h = Headers::new();
    for (name, values) in headers {
        h.insert(name.to_string(), values.iter().map(|v| v.to_string()).collect());
    }
    SerializableRequest {
        method: "POST".to_string(),
        url: url.to_string(),
        headers: h,
        body: body.map(|b| b.to_string()),
        body_base64: None,
        version: "None".to_string(),
    }
}

fn response(headers: &[(&str, &[&str])], body: Option<&str>) -> SerializableResponse {
    let q = request("", headers, body);
    SerializableResponse { status: 200, headers: q.headers, body: q.body, body_base64: None, version: q.version }
}

fn cassette() -> Cassette {
    let mut c = Cassette::new().with_path(PathBuf::from("c.yaml"));
    c.record_interaction(
        request(
            "https://h/login?api_key=K&page=2",
            &[("Cookie", &["a=1"]), ("cookie", &["b=2"]), ("Authorization", &["Basic QQ=="]), ("X-Trace", &["t"])],
            Some("username=ada&password=pw&color=red"),
        ),
        response(&[("Set-Cookie", &["sid=1"]), ("set-cookie", &["x=2"]), ("etag", &["e"])], Some("{\"sessionid\":\"[^\"]*\",\"n\":1}")),
    )
    .unwrap();
    c.record_interaction(
        request("https://h/plain", &[("authorization", &["Basic QQ==", "Bearer t"]), ("x-api-token", &["k"])], Some("just some text")),
        response(&[("x-auth-token", &["secret"])], None),
    )
    .unwrap();
    c.modified_since_load = false;
    c
}

#[test]
fn form_data_is_told_by_equals_and_ampersand_or_no_blank() {
    assert!(looks_like_form("a=1&b=2"));
    assert!(looks_like_form("a=1"));
    assert!(looks_like_form("a=1 2&b"));
    assert!(!looks_like_form("a = 1"));
    assert!(!looks_like_form("a&b"));
    assert!(!looks_like_form(""));
}

#[test]
fn credentials_are_masked_in_form_data_only() {
    let mut c = cassette();
    strip_all_credentials_from_requests(&mut c);
    assert_eq!(
        c.interactions[0].request.body,
        Some("username=%5BREMOVED%5D_USERNAME&password=%5BREMOVED%5D_PASSWORD&color=red".to_string())
    );
    assert_eq!(c.interactions[1].request.body, Some("just some text".to_string()));
    assert_eq!(c.interactions[0].response.body, cassette().interactions[0].response.body);
    assert_eq!(c.path, Some(PathBuf::from("c.yaml")));
    assert!(!c.modified_since_load);
    let masked = mask_credentials(request("u", &[], Some("pwd=1")), "M");
    assert_eq!(masked.body, Some("pwd=M_PWD".to_string()));
    assert_eq!(mask_credentials(request("u", &[], None), "M").body, None);
}

#[test]
fn cookies_are_stripped_from_requests_and_responses() {
    let mut c = cassette();
    strip_all_cookies(&mut c);
    let q = &c.interactions[0].request;
    assert_eq!(q.headers.len(), 2);
    assert!(q.headers.contains_key("Authorization") && q.headers.contains_key("X-Trace"));
    let s = &c.interactions[0].response;
    assert_eq!(s.headers.len(), 1);
    assert!(s.headers.contains_key("etag"));
    assert_eq!(c.interactions[1].request.headers.len(), 2);
    assert_eq!(c.interactions[1].response.headers.len(), 1);
}

#[test]
fn a_form_field_is_replaced_where_it_is_there() {
    let mut c = cassette();
    replace_form_field_in_all_requests(&mut c, "color", "b l&ue");
    assert_eq!(c.interactions[0].request.body, Some("username=ada&password=pw&color=b%20l%26ue".to_string()));
    assert_eq!(c.interactions[1].request.body, Some("just some text".to_string()));
    let same = replace_form_field(request("u", &[], Some("a=b%20c")), "zzz", "v");
    assert_eq!(same.body, Some("a=b%20c".to_string()));
    let mut c = cassette();
    set_test_password_in_cassette(&mut c, "test123");
    assert_eq!(c.interactions[0].request.body, Some("username=ada&password=test123&color=red".to_string()));
}

#[test]
fn a_header_is_removed_as_given_and_in_lower_case() {
    let mut c = cassette();
    remove_header_from_all_requests(&mut c, "Cookie");
    assert_eq!(c.interactions[0].request.headers.len(), 2);
    assert!(!c.interactions[0].request.headers.contains_key("cookie"));
    let mut c = cassette();
    remove_header_from_all_requests(&mut c, "AUTHORIZATION");
    assert!(c.interactions[0].request.headers.contains_key("Authorization"));
    assert!(!c.interactions[1].request.headers.contains_key("authorization"));
    assert_eq!(c.interactions[0].response.headers.len(), 3);
}

#[test]
fn a_header_is_replaced_as_given_and_in_lower_case() {
    let mut c = cassette();
    replace_header_in_all_requests(&mut c, "Authorization", "[A]");
    assert_eq!(c.interactions[0].request.headers.get("Authorization"), Some(&vec!["[A]".to_string()]));
    assert_eq!(c.interactions[1].request.headers.get("authorization"), Some(&vec!["[A]".to_string()]));
    assert_eq!(c.interactions[1].request.headers.get("Authorization"), None);
    assert_eq!(c.interactions[0].request.headers.len(), 4);
    assert_eq!(c.interactions[0].request.headers.get("Cookie"), Some(&vec!["a=1".to_string()]));
}

#[test]
fn urls_are_scrubbed_by_a_function_of_the_caller() {
    let mut c = cassette();
    scrub_urls_in_all_requests(&mut c, |url: &str| url.split('?').next().unwrap().to_uppercase());
    assert_eq!(c.interactions[0].request.url, "HTTPS://H/LOGIN");
    assert_eq!(c.interactions[1].request.url, "HTTPS://H/PLAIN");
    assert_eq!(c.interactions[0].request.body, cassette().interactions[0].request.body);
}

#[test]
fn the_user_name_is_replaced_in_form_data_and_basic_credentials_are_masked() {
    let mut c = cassette();
    replace_username_in_all_requests(&mut c, "test user");
    assert_eq!(c.interactions[0].request.body, Some("username=test%20user&password=pw&color=red".to_string()));
    assert_eq!(c.interactions[0].request.headers.get("Authorization"), Some(&vec!["Basic QQ==".to_string()]));
    assert_eq!(
        c.interactions[1].request.headers.get("authorization"),
        Some(&vec!["[FILTERED_BASIC_AUTH]".to_string(), "Bearer t".to_string()])
    );
    assert_eq!(c.interactions[1].request.body, Some("just some text".to_string()));
    let rewritten = replace_username(request("u", &[], Some("login=a&email=b&user=c&username_or_email=d&x=a%2Bb")), "N");
    assert_eq!(rewritten.body, Some("login=N&email=N&user=N&username_or_email=N&x=a%2Bb".to_string()));
    let encoded_anew = replace_username(request("u", &[], Some("x=a+b&y=%7e")), "N");
    assert_eq!(encoded_anew.body, Some("x=a%2Bb&y=~".to_string()));
}

#[test]
fn a_cassette_is_made_fit_for_sharing() {
    let mut c = cassette();
    sanitize_cassette_for_sharing(&mut c);
    let q = &c.interactions[0].request;
    assert!(!q.headers.contains_key("Authorization"));
    assert!(q.headers.contains_key("Cookie"));
    assert_eq!(q.body, Some("username=%5BSANITIZED%5D_USERNAME&password=%5BSANITIZED%5D_PASSWORD&color=red".to_string()));
    assert_eq!(q.url, "https://h/login?page=2");
    assert_eq!(c.interactions[0].response.body, Some("{\"sessionid\":\"[SANITIZED]\",\"n\":1}".to_string()));
    assert_eq!(c.interactions[0].response.headers.len(), 3);
    let q = &c.interactions[1].request;
    assert!(!q.headers.contains_key("authorization"));
    assert_eq!(q.url, "https://h/plain?");
    assert_eq!(c.interactions[1].response.body, None);
    assert_eq!(sanitize_request(request("not a url", &[], None)).url, "not a url");
    assert_eq!(sanitize_request(request("https://h/?key=1&access_token=2&token=3", &[], None)).url, "https://h/?token=3");
    assert_eq!(sanitize_response(response(&[], Some("\"sessionid\":\"abc\""))).body, Some("\"sessionid\":\"abc\"".to_string()));
}

#[test]
fn the_analysis_lists_credentials_and_sensitive_headers() {
    let c = cassette();
    let analysis = analyze_cassette_file(&c, PathBuf::from("c.yaml"));
    assert_eq!(analysis.file_path, PathBuf::from("c.yaml"));
    assert_eq!(analysis.total_interactions, 2);
    assert_eq!(analysis.requests_with_form_data, vec![0]);
    assert_eq!(
        analysis.requests_with_credentials,
        vec![(0, vec![("username".to_string(), "ada".to_string()), ("password".to_string(), "pw".to_string())])]
    );
    let found: Vec<(usize, &str)> = analysis.sensitive_headers.iter().map(|(i, n, _)| (*i, n.as_str())).collect();
    assert_eq!(
        found,
        vec![
            (0, "Cookie"),
            (0, "cookie"),
            (0, "Authorization"),
            (0, "response-Set-Cookie"),
            (0, "response-set-cookie"),
            (1, "authorization"),
            (1, "x-api-token"),
            (1, "response-x-auth-token"),
        ]
    );
    assert_eq!(analysis.sensitive_headers[5].2, vec!["Basic QQ==".to_string(), "Bearer t".to_string()]);
    assert_eq!(c.len(), 2);
    let empty = analyze_cassette_file(&Cassette::new(), PathBuf::from("e"));
    assert_eq!(empty.total_interactions, 0);
    assert!(empty.requests_with_form_data.is_empty() && empty.sensitive_headers.is_empty());
}

#[test]
fn the_first_user_name_that_is_not_masked_is_extracted() {
    assert_eq!(extract_username_from_cassette(&cassette()), Some("ada".to_string()));
    assert_eq!(extract_username_from_cassette(&Cassette::new()), None);
    let mut c = Cassette::new();
    c.record_interaction(request("u", &[], Some("no form here")), response(&[], None)).unwrap();
    c.record_interaction(request("u", &[], Some("username=%5BFILTERED%5D_USERNAME&email=%5BSANITIZED%5D&x=1")), response(&[], None)).unwrap();
    c.record_interaction(request("u", &[], Some("email=e%40x&user=u1&login=l")), response(&[], None)).unwrap();
    c.record_interaction(request("u", &[], Some("username=later")), response(&[], None)).unwrap();
    assert_eq!(extract_username_from_cassette(&c), Some("u1".to_string()));
}

#[test]
fn functions_of_the_caller_are_applied_to_every_interaction() {
    let mut c = cassette();
    mutate_all_requests(&mut c, |mut q: SerializableRequest| {
        q.method = "PUT".to_string();
        q
    });
    mutate_all_responses(&mut c, |mut s: SerializableResponse| {
        s.status = 418;
        s
    });
    assert!(c.interactions.iter().all(|i| i.request.method == "PUT" && i.response.status == 418));
    mutate_all_interactions(
        &mut c,
        |mut q: SerializableRequest| {
            q.url = format!("{}#", q.url);
            q
        },
        |mut s: SerializableResponse| {
            s.body = None;
            s
        },
    );
    assert_eq!(c.interactions[1].request.url, "https://h/plain#");
    assert!(c.interactions.iter().all(|i| i.response.body.is_none() && i.response.status == 418));
    assert_eq!(c.len(), 2);
}

#[test]
fn a_chain_of_filters_is_run_over_a_cassette() {
    let mut c = cassette();
    let chain = FilterChain::new().add_filter(Box::new(HeaderFilter::new().remove_auth_headers().replace_header("etag", "[E]")));
    filter_cassette_file(&mut c, &chain);
    assert_eq!(c.interactions[0].request.headers.len(), 2);
    assert!(c.interactions[0].request.headers.contains_key("cookie"));
    assert_eq!(c.interactions[0].response.headers.len(), 2);
    assert_eq!(c.interactions[0].response.headers.get("etag"), Some(&vec!["[E]".to_string()]));
    assert_eq!(c.interactions[1].request.headers.len(), 2);
    assert!(!c.modified_since_load);
}

#[test]
fn the_report_lists_what_was_found() {
    let analysis = analyze_cassette_file(&cassette(), PathBuf::from("c.yaml"));
    let lines = analysis.print_report("\"c.yaml\"");
    assert_eq!(
        lines,
        vec![
            "Cassette Analysis Report",
            "=====================================",
            "File: \"c.yaml\"",
            "Total interactions: 2",
            "",
            "Interactions with form data: 1",
            "  - Interaction #0",
            "",
            "Interactions containing credentials: 1",
            "  - Interaction #0: 2 credential fields",
            "    * username: ada",
            "    * password: pw",
            "",
            "Interactions with sensitive headers: 8",
            "  - Interaction #0: Cookie header",
            "    * a=1",
            "  - Interaction #0: cookie header",
            "    * b=2",
            "  - Interaction #0: Authorization header",
            "    * Basic QQ==",
            "  - Interaction #0: response-Set-Cookie header",
            "    * sid=1",
            "  - Interaction #0: response-set-cookie header",
            "    * x=2",
            "  - Interaction #1: authorization header",
            "    * Basic QQ==",
            "    * Bearer t",
            "  - Interaction #1: x-api-token header",
            "    * k",
            "  - Interaction #1: response-x-auth-token header",
            "    * secret",
            "",
            "Recommendations:",
            "  - Use SmartFormFilter to automatically detect and filter form credentials",
            "  - Use HeaderFilter to filter sensitive headers like cookies and tokens",
        ]
    );
    let nothing = analyze_cassette_file(&Cassette::new(), PathBuf::from("e")).print_report("e");
    assert_eq!(
        nothing,
        vec![
            "Cassette Analysis Report",
            "=====================================",
            "File: e",
            "Total interactions: 0",
            "",
            "Recommendations:",
            "  - No obvious sensitive data detected, but consider reviewing manually",
        ]
    );
}

#[test]
fn long_values_are_cut_in_the_report() {
    let mut c = Cassette::new();
    let token = "x".repeat(60);
    c.record_interaction(
        request("u", &[("x-token", &[token.as_str(), "\u{e9}".repeat(26).as_str()])], Some("password=aaaaaaaaaaaaaaaaaaaaaaaaa&pwd=\u{e9}\u{e9}\u{e9}\u{e9}\u{e9}\u{e9}\u{e9}\u{e9}\u{e9}\u{e9}z\u{e9}")),
        response(&[], None),
    )
    .unwrap();
    let lines = analyze_cassette_file(&c, PathBuf::from("p")).print_report("p");
    assert!(lines.contains(&format!("    * password: {}...", "a".repeat(20))));
    assert!(lines.contains(&format!("    * pwd: {}...", "\u{e9}".repeat(10))));
    assert!(lines.contains(&format!("    * {}...", "x".repeat(50))));
    assert!(lines.contains(&format!("    * {}...", "\u{e9}".repeat(25))));
}

#[test]
fn every_occurrence_of_the_session_text_is_replaced() {
    let pattern = "\"sessionid\":\"[^\"]*\"";
    let body = format!("{p}{p},x{p}", p = pattern);
    let cleaned = sanitize_response(response(&[], Some(&body)));
    assert_eq!(
        cleaned.body,
        Some("\"sessionid\":\"[SANITIZED]\"\"sessionid\":\"[SANITIZED]\",x\"sessionid\":\"[SANITIZED]\"".to_string())
    );
}
