use http_client_vcr::cassette::{Cassette, CassetteFormat, DirectoryInteraction, SavePlan};
use http_client_vcr::error::{ErrorKind, VcrError};
use http_client_vcr::ordered_map::{Fields, Headers};
use http_client_vcr::serializable::{SerializableRequest, SerializableResponse};
use std::path::PathBuf;

fn request(url: &str, body: Option<&str>, body_base64: Option<&str>) -> SerializableRequest {
    let mut headers = Headers::new();
    headers.insert("accept".to_string(), vec!["*/*".to_string()]);
    SerializableRequest {
        method: "GET".to_string(),
        url: url.to_string(),
        headers,
        body: body.map(|b| b.to_string()),
        body_base64: body_base64.map(|b| b.to_string()),
        version: "Some(Http1_1)".to_string(),
    }
}

fn response(status: u16, body: Option<&str>, body_base64: Option<&str>) -> SerializableResponse {
    SerializableResponse {
        status,
        headers: Headers::new(),
        body: body.map(|b| b.to_string()),
        body_base64: body_base64.map(|b| b.to_string()),
        version: "Some(Http1_1)".to_string(),
    }
}

fn files_of(layout: &http_client_vcr::cassette::DirectoryLayout) -> Fields {
    let mut files = Fields::new();
    for file in &layout.bodies {
        files.insert(file.name.clone(), file.content.clone());
    }
    files
}

fn sample() -> Cassette {
    let mut cassette = Cassette::new();
    cassette.record_interaction(request("https://a/1", None, None), response(200, Some("one"), None)).unwrap();
    cassette.record_interaction(request("https://a/2", Some("q=1"), None), response(201, None, Some("PGE+"))).unwrap();
    cassette.record_interaction(request("https://a/3", None, Some("PGI+")), response(204, None, None)).unwrap();
    cassette
}

#[test]
fn a_new_cassette_is_empty_and_unmodified() {
    let cassette = Cassette::new();
    assert_eq!(cassette.len(), 0);
    assert!(cassette.is_empty());
    assert!(cassette.path.is_none());
    assert!(!cassette.modified_since_load);
    assert_eq!(cassette.format, CassetteFormat::File);
    assert_eq!(CassetteFormat::default(), CassetteFormat::File);
    assert!(Cassette::default().is_empty());
}

#[test]
fn recording_appends_and_marks_as_modified() {
    let mut cassette = Cassette::new().with_path(PathBuf::from("x.yaml")).with_format(CassetteFormat::Directory);
    assert_eq!(cassette.path, Some(PathBuf::from("x.yaml")));
    assert_eq!(cassette.format, CassetteFormat::Directory);
    assert!(cassette.record_interaction(request("https://a/1", None, None), response(200, None, None)).is_ok());
    assert!(cassette.modified_since_load);
    cassette.record_interaction(request("https://a/2", None, None), response(404, None, None)).unwrap();
    assert_eq!(cassette.len(), 2);
    assert!(!cassette.is_empty());
    assert_eq!(cassette.interactions[0].request.url, "https://a/1");
    assert_eq!(cassette.interactions[1].response.status, 404);
    cassette.clear();
    assert!(cassette.is_empty());
    assert!(cassette.modified_since_load);
    assert_eq!(cassette.path, Some(PathBuf::from("x.yaml")));
}

#[test]
fn body_files_are_named_by_ordinal_direction_and_kind() {
    let layout = sample().directory_layout();
    let names: Vec<&str> = layout.bodies.iter().map(|f| f.name.as_str()).collect();
    assert_eq!(names, vec!["resp_001.txt", "req_002.txt", "resp_002.b64", "req_003.b64"]);
    let contents: Vec<&str> = layout.bodies.iter().map(|f| f.content.as_str()).collect();
    assert_eq!(contents, vec!["one", "q=1", "PGE+", "PGI+"]);
    assert_eq!(layout.manifest.len(), 3);
    assert_eq!(layout.manifest[0].request.body_file, None);
    assert_eq!(layout.manifest[0].response.body_file, Some("resp_001.txt".to_string()));
    assert_eq!(layout.manifest[1].request.body_file, Some("req_002.txt".to_string()));
    assert_eq!(layout.manifest[1].response.body_file, Some("resp_002.b64".to_string()));
    assert_eq!(layout.manifest[2].request.body_file, Some("req_003.b64".to_string()));
    assert_eq!(layout.manifest[2].response.body_file, None);
    assert_eq!(layout.manifest[1].request.url, "https://a/2");
    assert_eq!(layout.manifest[1].response.status, 201);
    assert_eq!(layout.manifest[1].request.headers.get("accept"), Some(&vec!["*/*".to_string()]));
}

#[test]
fn empty_bodies_have_no_file() {
    let mut cassette = Cassette::new();
    cassette.record_interaction(request("https://a/1", Some(""), Some("PGE+")), response(200, None, Some(""))).unwrap();
    let layout = cassette.directory_layout();
    assert!(layout.bodies.is_empty());
    assert_eq!(layout.manifest[0].request.body_file, None);
    assert_eq!(layout.manifest[0].response.body_file, None);
}

#[test]
fn ordinals_beyond_999_take_more_digits() {
    let mut cassette = Cassette::new();
    for _ in 0..1000 {
        cassette.record_interaction(request("https://a/", Some("b"), None), response(200, None, None)).unwrap();
    }
    let layout = cassette.directory_layout();
    assert_eq!(layout.bodies[8].name, "req_009.txt");
    assert_eq!(layout.bodies[9].name, "req_010.txt");
    assert_eq!(layout.bodies[99].name, "req_100.txt");
    assert_eq!(layout.bodies[999].name, "req_1000.txt");
}

#[test]
fn a_directory_loads_as_it_was_laid_out() {
    let cassette = sample();
    let layout = cassette.directory_layout();
    let files = files_of(&layout);
    let loaded = Cassette::from_directory(PathBuf::from("dir"), &layout.manifest, &files).unwrap();
    assert_eq!(loaded.path, Some(PathBuf::from("dir")));
    assert_eq!(loaded.format, CassetteFormat::Directory);
    assert!(!loaded.modified_since_load);
    assert_eq!(loaded.len(), 3);
    for (a, b) in loaded.interactions.iter().zip(cassette.interactions.iter()) {
        assert_eq!(a.request.method, b.request.method);
        assert_eq!(a.request.url, b.request.url);
        assert!(a.request.headers.same_as(&b.request.headers));
        assert_eq!(a.request.body, b.request.body);
        assert_eq!(a.request.body_base64, b.request.body_base64);
        assert_eq!(a.request.version, b.request.version);
        assert_eq!(a.response.status, b.response.status);
        assert_eq!(a.response.body, b.response.body);
        assert_eq!(a.response.body_base64, b.response.body_base64);
        assert_eq!(a.response.version, b.response.version);
    }
}

#[test]
fn a_missing_body_file_fails_the_load() {
    let layout = sample().directory_layout();
    let mut files = files_of(&layout);
    files.remove("req_002.txt");
    files.remove("req_003.b64");
    let e = Cassette::from_directory(PathBuf::from("dir"), &layout.manifest, &files).unwrap_err();
    assert_eq!(e.kind, ErrorKind::IoError);
    assert_eq!(e.status, 500);
    assert_eq!(e.message, "Failed to read request body file req_002.txt");
    let mut files = files_of(&layout);
    files.remove("resp_001.txt");
    let e = Cassette::from_directory(PathBuf::from("dir"), &layout.manifest, &files).unwrap_err();
    assert_eq!(e.message, "Failed to read response body file resp_001.txt");
}

#[test]
fn an_empty_manifest_loads_as_an_empty_cassette() {
    let manifest: Vec<DirectoryInteraction> = Vec::new();
    let loaded = Cassette::from_directory(PathBuf::from("dir"), &manifest, &Fields::new()).unwrap();
    assert!(loaded.is_empty());
}

#[test]
fn saving_needs_a_path() {
    let e = sample().save_plan().unwrap_err();
    assert_eq!(e.kind, ErrorKind::InvalidConfiguration);
    assert_eq!(e.status, 400);
    assert_eq!(e.message, "No path specified for cassette");
    let plan = sample().with_path(PathBuf::from("c.yaml")).save_plan().unwrap();
    assert!(matches!(plan, SavePlan::SingleFile));
    let plan = sample().with_path(PathBuf::from("c")).with_format(CassetteFormat::Directory).save_plan().unwrap();
    match plan {
        SavePlan::Directory(layout) => assert_eq!(layout.bodies.len(), 4),
        SavePlan::SingleFile => panic!("a directory was asked for"),
    }
}

#[test]
fn failures_of_persistence_carry_their_kind_and_status() {
    let e = VcrError::not_found("Directory cassette missing interactions.yaml: \"d\"".to_string());
    assert_eq!((e.kind, e.status), (ErrorKind::NotFound, 404));
    assert_eq!(e.to_string(), "Directory cassette missing interactions.yaml: \"d\"");
    let e = VcrError::corrupt_format("Failed to parse cassette YAML: x".to_string());
    assert_eq!((e.kind, e.status), (ErrorKind::CorruptFormat, 500));
    let e = VcrError::io_error("Failed to read cassette file: x".to_string());
    assert_eq!((e.kind, e.status), (ErrorKind::IoError, 500));
    let e = VcrError::new(ErrorKind::Transport, 502, "down".to_string());
    assert_eq!((e.kind, e.status, e.message.as_str()), (ErrorKind::Transport, 502, "down"));
}
