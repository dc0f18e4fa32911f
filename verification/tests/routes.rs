use quicfs::range::{write_content_range, write_truncate_range, ByteRange, RequestedRange};
use quicfs::routes::{decide_write, list_directory, read_file, write_file, WriteDecision};

fn content_range(value: &str) -> http::HeaderMap {
    let mut headers = http::HeaderMap::new();
    headers.insert("Content-Range", http::HeaderValue::from_str(value).unwrap());
    headers
}

fn refusal(decision: WriteDecision) -> String {
    match decision {
        WriteDecision::Refused(reply) => {
            assert_eq!(reply.status, 400);
            let value: serde_json::Value = serde_json::from_str(&reply.body).unwrap();
            value["error"].as_str().unwrap().to_string()
        }
        decision => panic!("{decision:?}"),
    }
}

#[test]
fn directory_is_named() {
    assert_eq!(list_directory(None), "/dir/");
    assert_eq!(list_directory(Some("a%20b")), "/dir/a b");
    assert_eq!(list_directory(Some("%ff")), "/dir/%ff");
}

#[test]
fn read_names_file_and_range() {
    let mut headers = http::HeaderMap::new();
    headers.insert("Range", http::HeaderValue::from_static("bytes=2-"));
    let request = read_file("a%20b", &headers);
    assert_eq!(request.path, "/file/a b");
    assert_eq!(request.range, RequestedRange::Bytes(ByteRange { start: 2, end: None }));
}

#[test]
fn write_of_the_right_length_is_accepted() {
    match write_file("a%20b", &content_range("bytes 5-9/10"), 5) {
        WriteDecision::Write { path, offset } => assert_eq!((path.as_str(), offset), ("/file/a b", 5)),
        decision => panic!("{decision:?}"),
    }
    match write_file("a", &http::HeaderMap::new(), 5) {
        WriteDecision::Write { path, offset } => assert_eq!((path.as_str(), offset), ("/file/a", 0)),
        decision => panic!("{decision:?}"),
    }
    match write_file("a", &content_range("bytes 0-0/0"), 0) {
        WriteDecision::Write { path, offset } => assert_eq!((path.as_str(), offset), ("/file/a", 0)),
        decision => panic!("{decision:?}"),
    }
}

#[test]
fn write_of_another_length_is_refused() {
    assert_eq!(
        refusal(write_file("a", &content_range("bytes 5-9/10"), 4)),
        "Content length mismatch: expected 5 bytes but got 4 (range: 5-9/10)"
    );
    assert_eq!(
        refusal(write_file("a", &content_range("bytes 5-5/5"), 0)),
        "Content length mismatch: expected 1 bytes but got 0 (range: 5-5/5)"
    );
}

#[test]
fn truncation_has_no_content() {
    match write_file("a", &content_range("bytes */7"), 0) {
        WriteDecision::Truncate { path, size } => assert_eq!((path.as_str(), size), ("/file/a", 7)),
        decision => panic!("{decision:?}"),
    }
    assert_eq!(
        refusal(write_file("a", &content_range("bytes */7"), 1)),
        "Truncate operation should not include content"
    );
    assert_eq!(
        refusal(write_file("a", &content_range("bytes */x"), 1)),
        "Invalid Content-Range size for truncate"
    );
}

#[test]
fn requests_of_the_client_are_accepted() {
    let range = write_content_range(100, 149, 150);
    assert!(matches!(
        decide_write("/file/a".to_string(), Some(&range), 50),
        WriteDecision::Write { offset: 100, .. }
    ));
    let range = write_truncate_range(9);
    assert!(matches!(
        decide_write("/file/a".to_string(), Some(&range), 0),
        WriteDecision::Truncate { size: 9, .. }
    ));
}

#[test]
fn span_that_cannot_be_counted_is_refused() {
    let all = format!("bytes 0-{}/1", u64::MAX);
    assert_eq!(refusal(write_file("a", &content_range(&all), 0)), "Invalid Content-Range length");
}

#[test]
fn file_is_moved() {
    let mut headers = http::HeaderMap::new();
    headers.insert("Destination", http::HeaderValue::from_static("/file/b%20c"));
    match write_file("a", &headers, 0) {
        WriteDecision::Rename { from, to } => {
            assert_eq!((from.as_str(), to.as_str()), ("/file/a", "/file/b c"));
        }
        decision => panic!("{decision:?}"),
    }
    headers.insert("Destination", http::HeaderValue::from_static("/dir/b"));
    assert_eq!(refusal(write_file("a", &headers, 0)), "Invalid destination");
}
