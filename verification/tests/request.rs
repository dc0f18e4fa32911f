use quicfs::error::{error_reply, ErrorCode};
use quicfs::http::{file_request_path, handle_request, Route};
use quicfs::request::{
    answer_error, build_read_request, build_write_request, create_file, host_text, list_directory,
    read_file, served, server_address, server_endpoint, server_error, truncate_file, write_file,
    ClientError, Request,
};

const URL: &str = "https://example.org:9000";

fn pairs(request: &Request) -> Vec<(&str, &str)> {
    request.headers.iter().map(|(name, value)| (name.as_str(), value.as_str())).collect()
}

#[test]
fn server_is_found_in_its_address() {
    assert_eq!(server_endpoint(URL).unwrap(), ("example.org".to_string(), 9000));
    assert_eq!(server_endpoint("https://example.org").unwrap(), ("example.org".to_string(), 4433));
    assert_eq!(server_endpoint("/").unwrap(), ("localhost".to_string(), 4433));
    assert!(matches!(server_endpoint("no uri"), Err(ClientError::InvalidServerUrl)));
    assert!(matches!(server_endpoint(""), Err(ClientError::InvalidServerUrl)));
    assert_eq!(server_address(None, Some(1)), ("localhost".to_string(), 1));
    assert_eq!(host_text("h", 80), "h:80");
}

#[test]
fn write_request_is_made() {
    let request = write_file(URL, "/a.txt", 100, 50).unwrap();
    assert_eq!((request.method.as_str(), request.path.as_str()), ("PATCH", "/file/a.txt"));
    assert_eq!(
        pairs(&request),
        [("host", "example.org:9000"), ("Content-Range", "bytes 100-149/150")]
    );
    let request = build_write_request("h", 1, "a", 0, 0);
    assert_eq!(pairs(&request), [("host", "h:1"), ("Content-Range", "bytes 0-0/0")]);
    let request = build_write_request("h", 1, "//a", 5, 0);
    assert_eq!(request.path, "/file/a");
    assert_eq!(pairs(&request)[1].1, "bytes 5-5/5");
}

#[test]
fn read_request_is_made() {
    let request = read_file(URL, "/a.txt", 100, 50).unwrap();
    assert_eq!((request.method.as_str(), request.path.as_str()), ("GET", "/file/a.txt"));
    assert_eq!(pairs(&request), [("host", "example.org:9000"), ("Range", "bytes=100-149")]);
    assert_eq!(pairs(&build_read_request("h", 1, "a", 0, 1))[1].1, "bytes=0-0");
}

#[test]
fn list_request_is_made() {
    let request = list_directory(URL, "/").unwrap();
    assert_eq!((request.method.as_str(), request.path.as_str()), ("GET", "/dir/"));
    assert_eq!(pairs(&request), [("host", "example.org:9000")]);
    assert_eq!(handle_request(&request.method, &request.path), Route::ListDirectory);
}

#[test]
fn truncate_request_is_made() {
    let request = truncate_file(URL, "/a.txt", 7).unwrap();
    assert_eq!((request.method.as_str(), request.path.as_str()), ("PATCH", "/file/a.txt"));
    assert_eq!(
        pairs(&request),
        [("host", "example.org:9000"), ("Content-Length", "0"), ("Content-Range", "bytes */7")]
    );
}

#[test]
fn created_file_has_the_name_that_was_meant() {
    for name in ["a b.txt", "100%", "ä/ö", "+", "/file/x", "%20", ""] {
        let request = create_file(URL, name).unwrap();
        assert_eq!(request.method, "PATCH");
        assert_eq!(file_request_path(&request.path), format!("/file/{name}"));
        assert_eq!(pairs(&request)[1].1, "bytes 0-0/0");
    }
    assert_eq!(create_file(URL, "a b").unwrap().path, "/file/a%20b");
}

#[test]
fn no_request_without_a_server() {
    assert!(write_file("", "/a", 0, 1).is_err());
    assert!(read_file("", "/a", 0, 1).is_err());
    assert!(list_directory("", "/").is_err());
    assert!(truncate_file("", "/a", 0).is_err());
    assert!(create_file("", "a").is_err());
}

#[test]
fn success_is_told_by_the_status() {
    assert!(served(200) && served(206) && served(299));
    assert!(!served(199) && !served(300) && !served(404));
    assert!(answer_error(206, b"not json").is_none());
}

#[test]
fn refusal_is_read_as_it_was_told() {
    for message in ["gone", "say \"no\"\n", "ä\u{0}"] {
        let reply = error_reply(ErrorCode::Enoent, message, Some("x"), Some("/y"));
        match answer_error(reply.status, reply.body.as_bytes()) {
            Some(ClientError::Server(text)) => assert_eq!(text, format!("Server error: {message}")),
            error => panic!("{error:?}"),
        }
    }
}

#[test]
fn refusal_that_is_not_described_is_told() {
    assert!(matches!(answer_error(500, b"oops"), Some(ClientError::InvalidErrorBody)));
    for body in ["{}", "{\"error\":1}", "[]", "\"error\""] {
        match answer_error(500, body.as_bytes()) {
            Some(ClientError::Server(text)) => assert_eq!(text, "Server error: Unknown error"),
            error => panic!("{error:?}"),
        }
    }
    match server_error(Some("x".to_string())) {
        ClientError::Server(text) => assert_eq!(text, "Server error: x"),
        error => panic!("{error:?}"),
    }
}
