use http_client_vcr::json::{parse, to_text, JsonValue};
use http_client_vcr::json_path::{collect_field_paths, copy_json, extract_nested_field};

fn tree() -> JsonValue {
    parse(r#"{"request":{"method":"GET","headers":{"accept":["a","b"]}},"response":{"status":200,"list":[[1,{"x":null}]]}}"#).unwrap()
}

fn at(path: &str) -> Result<String, String> {
    extract_nested_field(&tree(), path).map(|v| to_text(&v).unwrap())
}

#[test]
fn a_path_leads_to_a_value() {
    assert_eq!(at("request.method"), Ok("\"GET\"".to_string()));
    assert_eq!(at("request.headers.accept[1]"), Ok("\"b\"".to_string()));
    assert_eq!(at("response.status"), Ok("200".to_string()));
    assert_eq!(at("response.list[0][1].x"), Ok("null".to_string()));
    assert_eq!(at("response.list[0]"), Ok("[1,{\"x\":null}]".to_string()));
    assert_eq!(at(""), Ok(to_text(&tree()).unwrap()));
    assert_eq!(at("request[x]"), at("request"));
}

#[test]
fn a_step_that_cannot_be_taken_is_named() {
    assert_eq!(at("request.body"), Err("Field 'body' not found in object".to_string()));
    assert_eq!(at("request.method.x"), Err("Cannot access field 'x' on non-object value".to_string()));
    assert_eq!(at("request.headers.accept[2]"), Err("Array index 2 out of bounds (length: 2)".to_string()));
    assert_eq!(at("request[0]"), Err("Cannot access index 0 on non-array value".to_string()));
    assert_eq!(at("nope.request[0]"), Err("Field 'nope' not found in object".to_string()));
}

#[test]
fn all_paths_are_listed_parent_first() {
    let mut paths = vec!["kept".to_string()];
    collect_field_paths(&tree(), "", &mut paths);
    assert_eq!(
        paths,
        vec![
            "kept",
            "request",
            "request.headers",
            "request.headers.accept",
            "request.headers.accept[0]",
            "request.headers.accept[1]",
            "request.method",
            "response",
            "response.list",
            "response.list[0]",
            "response.list[0][0]",
            "response.list[0][1]",
            "response.list[0][1].x",
            "response.status",
        ]
    );
    let mut below = Vec::new();
    collect_field_paths(&parse("[{\"a\":1}]").unwrap(), "root", &mut below);
    assert_eq!(below, vec!["root[0]", "root[0].a"]);
    let mut none = Vec::new();
    collect_field_paths(&parse("3").unwrap(), "root", &mut none);
    assert!(none.is_empty());
}

#[test]
fn a_copy_is_the_same_tree() {
    assert_eq!(to_text(&copy_json(&tree())), to_text(&tree()));
}
