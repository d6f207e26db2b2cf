use http_client_vcr::field_path::{parse_field_path, FieldPathPart};
use http_client_vcr::ordered_map::{Fields, Headers};
use http_client_vcr::text::{
    byte_len, contains_char, contains_str, decimal_string, ends_with, from_chars, push_padded,
    letter_or_digit, lowercase, numbered, preview_of, split, split_once, starts_with, str_eq,
    to_ascii_lowercase, to_chars, uppercase,
};

fn padded(n: usize) -> String {
    let mut s = String::new();
    push_padded(&mut s, n);
    s
}

fn keys(parts: &Vec<FieldPathPart>) -> Vec<String> {
    parts
        .iter()
        .map(|p| match p {
            FieldPathPart::Key(k) => format!("K:{}", k),
            FieldPathPart::Index(i) => format!("I:{}", i),
        })
        .collect()
}

#[test]
fn decimal_digits_of_numbers() {
    assert_eq!(decimal_string(0), "0");
    assert_eq!(decimal_string(7), "7");
    assert_eq!(decimal_string(10), "10");
    assert_eq!(decimal_string(9075), "9075");
    assert_eq!(decimal_string(usize::MAX), usize::MAX.to_string());
}

#[test]
fn ordinals_are_padded_to_three_digits() {
    assert_eq!(padded(0), "000");
    assert_eq!(padded(7), "007");
    assert_eq!(padded(42), "042");
    assert_eq!(padded(123), "123");
    assert_eq!(padded(1000), "1000");
}

#[test]
fn characters_round_trip() {
    let s = "h\u{e9}llo \u{1F600}";
    assert_eq!(from_chars(&to_chars(s)), s);
    assert_eq!(to_chars(s).len(), 7);
    assert_eq!(byte_len(s), 11);
}

#[test]
fn searching_in_text() {
    assert!(contains_char("a=b", '='));
    assert!(!contains_char("ab", '='));
    assert!(contains_str("set-cookie", "cookie"));
    assert!(contains_str("abc", ""));
    assert!(!contains_str("abc", "abcd"));
    assert!(!contains_str("cooki", "cookie"));
    assert!(starts_with("Basic abc", "Basic "));
    assert!(!starts_with("Basi", "Basic "));
    assert!(ends_with("req_001.b64", ".b64"));
    assert!(!ends_with("req_001.txt", ".b64"));
    assert!(str_eq("abc", "abc"));
    assert!(!str_eq("abc", "abd"));
    assert!(!str_eq("abc", "ab"));
}

#[test]
fn splitting_text() {
    assert_eq!(split("a&b&&c", '&'), vec!["a", "b", "", "c"]);
    assert_eq!(split("", '&'), vec![""]);
    assert_eq!(split("a&", '&'), vec!["a", ""]);
    assert_eq!(split_once("k=v=w", '='), Some(("k".to_string(), "v=w".to_string())));
    assert_eq!(split_once("=v", '='), Some(("".to_string(), "v".to_string())));
    assert_eq!(split_once("kv", '='), None);
}

#[test]
fn ascii_lower_case_leaves_other_letters() {
    assert_eq!(to_ascii_lowercase("Content-TYPE"), "content-type");
    assert_eq!(to_ascii_lowercase("\u{c9}T\u{c9}"), "\u{c9}t\u{c9}");
}

#[test]
fn maps_keep_insertion_order_and_replace_in_place() {
    let mut m = Fields::new();
    assert!(m.is_empty());
    m.insert("b".to_string(), "1".to_string());
    m.insert("a".to_string(), "2".to_string());
    m.insert("b".to_string(), "3".to_string());
    assert_eq!(m.len(), 2);
    assert_eq!(m.key_at(0), "b");
    assert_eq!(m.value_at(0), "3");
    assert_eq!(m.key_at(1), "a");
    assert_eq!(m.index_of("a"), Some(1));
    assert_eq!(m.index_of("c"), None);
    assert!(m.contains_key("a"));
    assert_eq!(m.remove("b"), Some("3".to_string()));
    assert_eq!(m.remove("b"), None);
    assert_eq!(m.len(), 1);
    assert_eq!(m.key_at(0), "a");
    let copy = m.clone();
    copy.keys_distinct();
    assert_eq!(copy.get("a"), Some(&"2".to_string()));
}

#[test]
fn header_maps_are_equal_in_any_order() {
    let mut a = Headers::new();
    a.insert("x".to_string(), vec!["1".to_string(), "2".to_string()]);
    a.insert("y".to_string(), vec![]);
    let mut b = Headers::new();
    b.insert("y".to_string(), vec![]);
    b.insert("x".to_string(), vec!["1".to_string(), "2".to_string()]);
    assert!(a.same_as(&b));
    b.insert("x".to_string(), vec!["2".to_string(), "1".to_string()]);
    assert!(!a.same_as(&b));
    b.remove("x");
    assert!(!a.same_as(&b));
}

#[test]
fn field_paths_are_read_into_keys_and_indices() {
    assert_eq!(
        keys(&parse_field_path("request.headers.accept[0]")),
        vec!["K:request", "K:headers", "K:accept", "I:0"]
    );
    assert_eq!(keys(&parse_field_path("a[+1].b")), vec!["K:a", "I:1", "K:b"]);
    assert_eq!(keys(&parse_field_path("a[x]b")), vec!["K:a", "K:b"]);
    assert_eq!(keys(&parse_field_path("a[12")), vec!["K:a", "I:12"]);
    assert_eq!(keys(&parse_field_path("..a..")), vec!["K:a"]);
    assert_eq!(keys(&parse_field_path("[]")), Vec::<String>::new());
    assert_eq!(keys(&parse_field_path("[007][2]")), vec!["I:7", "I:2"]);
    assert_eq!(keys(&parse_field_path("")), Vec::<String>::new());
    assert_eq!(keys(&parse_field_path("a]b")), vec!["K:a]b"]);
}

#[test]
fn an_index_that_does_not_fit_gives_no_part() {
    let big = format!("[{}]", usize::MAX);
    assert_eq!(keys(&parse_field_path(&big)), vec![format!("I:{}", usize::MAX)]);
    let too_big = format!("[{}0]", usize::MAX);
    assert_eq!(keys(&parse_field_path(&too_big)), Vec::<String>::new());
    assert_eq!(keys(&parse_field_path("[99999999999999999999999999]")), Vec::<String>::new());
    assert_eq!(keys(&parse_field_path("[-1]")), Vec::<String>::new());
    assert_eq!(keys(&parse_field_path("[+]")), Vec::<String>::new());
}

#[test]
fn previews_cut_at_the_end_of_a_character() {
    assert_eq!(preview_of("short", 20), "short");
    assert_eq!(preview_of("exactly twenty bytes", 20), "exactly twenty bytes");
    assert_eq!(preview_of("exactly twenty bytes!", 20), "exactly twenty bytes...");
    assert_eq!(preview_of("a\u{e9}\u{e9}", 2), "a...");
    assert_eq!(preview_of("a\u{e9}\u{e9}", 3), "a\u{e9}...");
    assert_eq!(preview_of("\u{1F600}x", 3), "...");
    assert_eq!(preview_of("abc", 0), "...");
    assert_eq!(preview_of("", 0), "");
    assert_eq!(numbered("n = ", 405), "n = 405");
}

#[test]
fn case_and_letters_follow_unicode() {
    assert_eq!(lowercase("Content-TYPE 1"), "content-type 1");
    assert_eq!(uppercase("api_key-1"), "API_KEY-1");
    assert_eq!(lowercase("\u{c9}T\u{c9}"), "\u{e9}t\u{e9}");
    assert_eq!(uppercase("stra\u{df}e"), "STRASSE");
    assert!(letter_or_digit('a') && letter_or_digit('Z') && letter_or_digit('5'));
    assert!(!letter_or_digit('-') && !letter_or_digit(' ') && !letter_or_digit('_'));
    assert!(letter_or_digit('\u{e9}') && !letter_or_digit('\u{2014}'));
}
