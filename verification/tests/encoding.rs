use quicfs::client::{CreateStep, QuicFS};
use quicfs::error::{error_reply, ErrorCode};
use quicfs::http::{decode_part, file_request_path};
use quicfs::request::create_file;

const URL: &str = "https://localhost:4433";

#[test]
fn names_are_encoded_for_urls() {
    let path = |name: &str| create_file(URL, name).unwrap().path;
    assert_eq!(path("azAZ09-._~"), "/file/azAZ09-._~");
    assert_eq!(path("a/b c+%"), "/file/a%2Fb%20c%2B%25");
    assert_eq!(path("ä€😀"), "/file/%C3%A4%E2%82%AC%F0%9F%98%80");
    assert_eq!(path("\u{7f}\n"), "/file/%7F%0A");
}

#[test]
fn urls_are_decoded() {
    assert_eq!(decode_part("%41%6a%6A"), "Ajj");
    assert_eq!(decode_part("%C3%A4ä+"), "ää+");
    assert_eq!(decode_part("%"), "%");
    assert_eq!(decode_part("%4"), "%4");
    assert_eq!(decode_part("%%41"), "%A");
    assert_eq!(decode_part("%4%41"), "%4A");
    assert_eq!(decode_part("%zz%41"), "%zzA");
    assert_eq!(decode_part("%4g"), "%4g");
    assert_eq!(decode_part(""), "");
    assert_eq!(decode_part("%C3%41"), "%C3%41");
    assert_eq!(decode_part("%00"), "\u{0}");
}

#[test]
fn texts_are_escaped_for_json() {
    let body = |message: &str| error_reply(ErrorCode::Eio, message, None, None).body;
    let text = "\"\\\u{8}\t\n\u{c}\r\u{0}\u{b}\u{1f}\u{7f}/ä\u{2028}";
    let escaped = "\\\"\\\\\\b\\t\\n\\f\\r\\u0000\\u000b\\u001f\u{7f}/ä\u{2028}";
    let start = "{\"status\":\"error\",\"error\":\"";
    assert_eq!(body(text), format!("{start}{escaped}\",\"code\":\"EIO\",\"details\":{{}}}}"));
}

#[test]
fn created_file_is_the_one_that_is_read() {
    let now = quicfs::calendar::Timestamp { secs: 0, nanos: 0 };
    for name in ["a.txt", "with space", "ä", "50%", "file"] {
        let mut fs = QuicFS::new(URL.to_string(), now);
        let none = quicfs::types::DirList { entries: vec![] };
        let attr = match fs.create(name, 0o644, 0, Some(&none), now) {
            CreateStep::WriteEmpty(attr) => attr,
            step => panic!("{step:?}"),
        };
        let meant = format!("/file/{name}");
        assert_eq!(file_request_path(&create_file(URL, name).unwrap().path), meant);
        assert_eq!(file_request_path(&fs.read(attr.ino, 0, 1).unwrap().path), meant);
        assert_eq!(file_request_path(&fs.write(attr.ino, 0, 1).unwrap().path), meant);
        let truncation = fs.setattr(attr.ino, Some(0)).unwrap().unwrap();
        assert_eq!(file_request_path(&truncation.path), meant);
    }
}
