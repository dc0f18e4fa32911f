use quicfs::range::{
    checked_span_length, content_range_extent, creates_file, header_str, parse_content_range,
    parse_content_range_value, parse_range, resolve_range, write_content_range, write_range,
    write_truncate_range, ByteRange, ContentRange, RequestedRange,
};

fn content_range(value: &str) -> http::HeaderMap {
    let mut headers = http::HeaderMap::new();
    headers.insert("Content-Range", http::HeaderValue::from_str(value).unwrap());
    headers
}

#[test]
fn header_fields_are_found_in_any_case() {
    let mut headers = content_range("bytes */7");
    assert_eq!(header_str(&headers, "Content-Range"), Some("bytes */7".to_string()));
    assert_eq!(header_str(&headers, "content-range"), Some("bytes */7".to_string()));
    assert_eq!(header_str(&headers, "Range"), None);
    assert_eq!(header_str(&headers, "no such name"), None);
    headers.append("content-range", http::HeaderValue::from_static("second"));
    assert_eq!(header_str(&headers, "CONTENT-RANGE"), Some("bytes */7".to_string()));
}

#[test]
fn header_values_that_are_no_text_count_as_absent() {
    let mut headers = http::HeaderMap::new();
    headers.insert("range", http::HeaderValue::from_bytes(b"bytes=0-\xff").unwrap());
    assert_eq!(header_str(&headers, "Range"), None);
    headers.insert("range", http::HeaderValue::from_bytes(b"a\tb").unwrap());
    assert_eq!(header_str(&headers, "Range"), Some("a\tb".to_string()));
}

#[test]
fn range_is_read() {
    let range = |start, end| RequestedRange::Bytes(ByteRange { start, end });
    assert_eq!(parse_range("bytes=5-9"), range(5, Some(9)));
    assert_eq!(parse_range("bytes=5-"), range(5, None));
    assert_eq!(parse_range("bytes=1-2-3"), RequestedRange::Whole);
    assert_eq!(parse_range("bytes=12"), RequestedRange::Whole);
    assert_eq!(parse_range("bytes 1-2"), RequestedRange::Whole);
    assert_eq!(parse_range(""), RequestedRange::Whole);
}

#[test]
fn range_without_numbers_is_invalid() {
    for value in ["bytes=abc-4", "bytes=5-x", "bytes=x-y", "bytes=-", "bytes=-9", "bytes= 1-2"] {
        assert_eq!(parse_range(value), RequestedRange::Invalid, "{value}");
    }
    assert_eq!(parse_range("bytes=0-18446744073709551616"), RequestedRange::Invalid);
}

#[test]
fn range_is_cut_at_the_end_of_the_file() {
    let range = |start, end| ByteRange { start, end };
    assert_eq!(resolve_range(range(0, None), 10), Some((0, 9)));
    assert_eq!(resolve_range(range(3, Some(5)), 10), Some((3, 5)));
    assert_eq!(resolve_range(range(3, Some(50)), 10), Some((3, 9)));
    assert_eq!(resolve_range(range(9, Some(9)), 10), Some((9, 9)));
    assert_eq!(resolve_range(range(10, None), 10), None);
    assert_eq!(resolve_range(range(5, Some(3)), 10), None);
    assert_eq!(resolve_range(range(0, None), 0), None);
    assert_eq!(resolve_range(range(0, Some(u64::MAX)), u64::MAX), Some((0, u64::MAX - 1)));
}

#[test]
fn content_range_is_read() {
    assert_eq!(parse_content_range(&content_range("bytes 5-9/10")), Ok((Some(5), Some(5))));
    assert_eq!(parse_content_range(&content_range("bytes 0-0/1")), Ok((Some(0), Some(1))));
    assert_eq!(parse_content_range(&content_range("bytes 0-0/0")), Ok((Some(0), Some(0))));
    assert_eq!(parse_content_range(&content_range("bytes 9-5/10")), Ok((Some(9), Some(0))));
    assert_eq!(parse_content_range(&content_range("bytes */7")), Ok((Some(7), None)));
    assert_eq!(parse_content_range(&http::HeaderMap::new()), Ok((Some(0), None)));
    assert_eq!(content_range_extent(Some("bytes +1-+2/+3")), Ok((Some(1), Some(2))));
    assert_eq!(content_range_extent(None), Ok((Some(0), None)));
}

#[test]
fn content_range_of_another_shape_is_refused() {
    let message = |value: &str| parse_content_range_value(value).unwrap_err();
    assert_eq!(message("5-9/10"), "Invalid Content-Range format");
    assert_eq!(message("bytes 5-9"), "Invalid Content-Range format");
    assert_eq!(message("bytes 5-9/10/11"), "Invalid Content-Range format");
    assert_eq!(message("bytes 5/10"), "Invalid Content-Range format");
    assert_eq!(message("bytes 1-5-9/10"), "Invalid Content-Range format");
    assert_eq!(message("bytes */x"), "Invalid Content-Range size for truncate");
    assert_eq!(message("bytes a-9/10"), "Invalid Content-Range start offset");
    assert_eq!(message("bytes 5-b/10"), "Invalid Content-Range end offset");
    assert_eq!(message("bytes 5-9/*"), "Invalid Content-Range total length");
    assert_eq!(message("bytes a-b/c"), "Invalid Content-Range start offset");
    assert_eq!(message("bytes 0-18446744073709551615/1"), "Invalid Content-Range length");
    assert_eq!(
        parse_content_range(&content_range("bytes 0-18446744073709551615/1")),
        Err("Invalid Content-Range length".to_string())
    );
    assert_eq!(
        parse_content_range(&content_range("bits 5-9/10")),
        Err("Invalid Content-Range format".to_string())
    );
}

#[test]
fn spans_are_counted() {
    assert_eq!(checked_span_length(0, 0, 0), Some(0));
    assert_eq!(checked_span_length(5, 5, 5), Some(1));
    assert_eq!(checked_span_length(5, 4, 5), Some(0));
    assert_eq!(checked_span_length(1, u64::MAX, 1), Some(u64::MAX));
    assert_eq!(checked_span_length(0, u64::MAX, 1), None);
    assert_eq!(checked_span_length(0, u64::MAX, 0), Some(0));
}

#[test]
fn what_the_client_writes_is_what_the_server_reads() {
    assert_eq!(write_range(100, 50), "bytes=100-149");
    assert_eq!(
        parse_range(&write_range(100, 50)),
        RequestedRange::Bytes(ByteRange { start: 100, end: Some(149) })
    );
    assert_eq!(write_content_range(100, 149, 150), "bytes 100-149/150");
    assert_eq!(
        parse_content_range_value(&write_content_range(100, 149, 150)),
        Ok(ContentRange::Span { start: 100, end: 149, total: 150 })
    );
    assert_eq!(write_truncate_range(12), "bytes */12");
    assert_eq!(
        parse_content_range_value(&write_truncate_range(12)),
        Ok(ContentRange::Truncate { size: 12 })
    );
}

#[test]
fn creation_is_told() {
    assert!(creates_file(None));
    assert!(creates_file(Some("bytes 0-0/0")));
    assert!(!creates_file(Some("bytes 0-4/5")));
    assert!(!creates_file(Some("bytes */0")));
    assert!(!creates_file(Some("nothing")));
}
