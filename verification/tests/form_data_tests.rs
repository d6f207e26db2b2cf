use http_client_vcr::form_data::{
    analyze_form_data, encode_form_data, filter_form_data, find_credential_fields,
    parse_form_data,
};
use http_client_vcr::ordered_map::Fields;

#[test]
fn test_parse_form_data() {
    let data = "username=testuser&password=secret123&csrf_token=abc123";
    let params = parse_form_data(data);

    assert_eq!(params.get("username"), Some(&"testuser".to_string()));
    assert_eq!(params.get("password"), Some(&"secret123".to_string()));
    assert_eq!(params.get("csrf_token"), Some(&"abc123".to_string()));
}

#[test]
fn test_find_credential_fields() {
    let mut params = Fields::new();
    params.insert("username".to_string(), "testuser".to_string());
    params.insert("password".to_string(), "secret123".to_string());
    params.insert("normal_field".to_string(), "value".to_string());

    let credentials = find_credential_fields(&params);
    assert_eq!(credentials.len(), 2);

    let keys: Vec<&String> = credentials.iter().map(|(k, _)| k).collect();
    assert!(keys.contains(&&"username".to_string()));
    assert!(keys.contains(&&"password".to_string()));
}

#[test]
fn test_filter_form_data() {
    let data = "username=testuser&password=secret123&normal=value";
    let filtered = filter_form_data(data, "[FILTERED]");

    // The brackets get URL-encoded, so we need to check for the encoded version
    assert!(filtered.contains("%5BFILTERED%5D_USERNAME"));
    assert!(filtered.contains("%5BFILTERED%5D_PASSWORD"));
    assert!(filtered.contains("normal=value"));
}

#[test]
fn filter_form_data_keeps_the_order_of_the_fields() {
    let filtered = filter_form_data("username=testuser&password=secret123&normal=value", "[FILTERED]");
    assert_eq!(
        filtered,
        "username=%5BFILTERED%5D_USERNAME&password=%5BFILTERED%5D_PASSWORD&normal=value"
    );
}

#[test]
fn parse_decodes_percent_sequences_and_keeps_plus() {
    let params = parse_form_data("full%20name=Ada%20L&sum=1+1&bare&empty=");
    assert_eq!(params.len(), 3);
    assert_eq!(params.get("full name"), Some(&"Ada L".to_string()));
    assert_eq!(params.get("sum"), Some(&"1+1".to_string()));
    assert_eq!(params.get("empty"), Some(&"".to_string()));
    assert_eq!(params.get("bare"), None);
}

#[test]
fn parse_keeps_what_does_not_decode_to_utf8() {
    let params = parse_form_data("k=%FF");
    assert_eq!(params.get("k"), Some(&"%FF".to_string()));
}

#[test]
fn parse_splits_at_the_first_equals_sign_and_later_fields_win() {
    let params = parse_form_data("a=b=c&a=d");
    assert_eq!(params.len(), 1);
    assert_eq!(params.get("a"), Some(&"d".to_string()));
    let params = parse_form_data("x=1=2");
    assert_eq!(params.get("x"), Some(&"1=2".to_string()));
}

#[test]
fn encode_percent_encodes_all_but_unreserved_bytes() {
    let mut params = Fields::new();
    params.insert("full name".to_string(), "Ada/L-1_2.3~".to_string());
    params.insert("q".to_string(), "\u{e9}".to_string());
    assert_eq!(encode_form_data(&params), "full%20name=Ada%2FL-1_2.3~&q=%C3%A9");
    assert_eq!(encode_form_data(&Fields::new()), "");
}

#[test]
fn credentials_are_found_by_name_in_any_case() {
    let mut params = Fields::new();
    params.insert("User_PASSWORD".to_string(), "x".to_string());
    params.insert("color".to_string(), "red".to_string());
    let credentials = find_credential_fields(&params);
    assert_eq!(credentials, vec![("User_PASSWORD".to_string(), "x".to_string())]);
}

#[test]
fn long_alphanumeric_values_count_as_credentials() {
    let mut params = Fields::new();
    params.insert("field".to_string(), "abcdefghijk".to_string());
    params.insert("short".to_string(), "abcdefghij".to_string());
    params.insert("dashed".to_string(), "abcdefghij-k".to_string());
    let credentials = find_credential_fields(&params);
    assert_eq!(credentials, vec![("field".to_string(), "abcdefghijk".to_string())]);
}

#[test]
fn a_named_credential_with_a_token_value_is_listed_twice() {
    let mut params = Fields::new();
    params.insert("password".to_string(), "abcdefghijkl".to_string());
    let credentials = find_credential_fields(&params);
    assert_eq!(credentials.len(), 2);
    assert_eq!(credentials[0], credentials[1]);
}

#[test]
fn analysis_counts_fields_and_lists_credentials() {
    let analysis = analyze_form_data("username=u&color=red&csrf_token=t");
    assert_eq!(analysis.total_fields, 3);
    assert_eq!(analysis.all_fields.len(), 3);
    assert_eq!(
        analysis.credential_fields,
        vec![("username".to_string(), "u".to_string()), ("csrf_token".to_string(), "t".to_string())]
    );
}

#[test]
fn the_mask_carries_the_field_name_in_upper_case() {
    assert_eq!(filter_form_data("api_key=1", "X"), "api_key=X_API_KEY");
    assert_eq!(filter_form_data("color=red", "X"), "color=red");
}

#[test]
fn the_summary_lists_counts_credentials_and_fields() {
    let long = "v".repeat(51);
    let analysis = analyze_form_data(&format!("username=ada&note={}&secret=abcdefghijklmnopqrstu", long));
    assert_eq!(
        analysis.print_summary(),
        vec![
            "Form Data Analysis:".to_string(),
            "  Total fields: 3".to_string(),
            "  Credential fields found: 4".to_string(),
            "  Sensitive fields:".to_string(),
            "    username: ada".to_string(),
            format!("    note: {}...", "v".repeat(20)),
            "    secret: abcdefghijklmnopqrst...".to_string(),
            "    secret: abcdefghijklmnopqrst...".to_string(),
            "  All fields:".to_string(),
            "    username: ada".to_string(),
            format!("    note: {}...", "v".repeat(50)),
            "    secret: abcdefghijklmnopqrstu".to_string(),
        ]
    );
    assert_eq!(
        analyze_form_data("").print_summary(),
        vec!["Form Data Analysis:", "  Total fields: 0", "  Credential fields found: 0", "  All fields:"]
    );
}
