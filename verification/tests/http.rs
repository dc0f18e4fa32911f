use quicfs::error::{ErrorCode, FsError};
use quicfs::http::{
    attr_request_path, bind_address, change_reply, created_reply, decode_part, decoded_or_raw,
    destination_request, dir_request_path, done_reply, file_request_path, handle_request,
    listing_failure_reply, listing_reply, mode_request, not_found_reply, parse_destination,
    part_reply, plan_range, start_create_dir, start_create_file, start_read, start_set_attributes,
    start_write, stat_reply, stats_reply, whole_reply, written_reply, AttrPatch, AttrUpdate,
    CreateStart, RangePlan, ReadOutcome, Route, SpaceMetadata, WriteStart,
};
use quicfs::range::{ByteRange, RequestedRange};
use quicfs::types::FileStat;

fn with(name: &'static str, value: &str) -> http::HeaderMap {
    let mut headers = http::HeaderMap::new();
    headers.insert(name, http::HeaderValue::from_str(value).unwrap());
    headers
}

fn pairs(headers: &[(String, String)]) -> Vec<(&str, &str)> {
    headers.iter().map(|(name, value)| (name.as_str(), value.as_str())).collect()
}

fn no_space() -> FsError {
    FsError { code: ErrorCode::Enospc, message: "No space left on device".to_string() }
}

#[test]
fn requests_are_routed() {
    assert_eq!(handle_request("GET", "/file/a"), Route::ReadFile);
    assert_eq!(handle_request("PATCH", "/file/a"), Route::WriteFile);
    assert_eq!(handle_request("GET", "/dir/"), Route::ListDirectory);
    assert_eq!(handle_request("PUT", "/file/a"), Route::CreateFile);
    assert_eq!(handle_request("DELETE", "/file/a"), Route::DeleteFile);
    assert_eq!(handle_request("PUT", "/dir/a"), Route::CreateDirectory);
    assert_eq!(handle_request("DELETE", "/dir/a"), Route::RemoveDirectory);
    assert_eq!(handle_request("GET", "/attr/a"), Route::GetAttributes);
    assert_eq!(handle_request("PATCH", "/attr/a"), Route::SetAttributes);
    assert_eq!(handle_request("GET", "/fs/stats"), Route::Stats);
    assert_eq!(handle_request("GET", "/fs/stats/"), Route::NotFound);
    assert_eq!(handle_request("PUT", "/attr/a"), Route::NotFound);
    assert_eq!(handle_request("POST", "/file/a"), Route::NotFound);
    assert_eq!(handle_request("PATCH", "/fs/stats"), Route::NotFound);
    assert_eq!(handle_request("PATCH", "/dir/"), Route::NotFound);
    assert_eq!(handle_request("GET", "/dir"), Route::NotFound);
    assert_eq!(handle_request("GET", "/file"), Route::NotFound);
    assert_eq!(handle_request("get", "/file/a"), Route::NotFound);
}

#[test]
fn unknown_path_is_not_found() {
    let reply = not_found_reply("/nowhere");
    assert_eq!(reply.status, 404);
    let value: serde_json::Value = serde_json::from_str(&reply.body).unwrap();
    assert_eq!(value["error"], "Not found");
    assert_eq!(value["path"], "/nowhere");
    assert_eq!(value["code"], "ENOENT");
}

#[test]
fn paths_are_decoded() {
    assert_eq!(file_request_path("/file/a%20b"), "/file/a b");
    assert_eq!(file_request_path("/file/a/b"), "/file/a/b");
    assert_eq!(file_request_path("/file//file/x"), "/file//file/x");
    assert_eq!(file_request_path("/file/file/x"), "/file/file/x");
    assert_eq!(attr_request_path("/attr/a%20b"), "/attr/a b");
    assert_eq!(file_request_path("/file/%2e%2E"), "/file/..");
    assert_eq!(dir_request_path("/dir/"), "/dir/");
    assert_eq!(dir_request_path("/dir/a%2Fb"), "/dir/a/b");
    assert_eq!(decode_part("100%"), "100%");
}

#[test]
fn path_that_is_no_utf8_stays_encoded() {
    assert_eq!(file_request_path("/file/%ff"), "/file/%ff");
    assert_eq!(decoded_or_raw("%ff", None), "%ff");
    assert_eq!(decoded_or_raw("%20", Some(" ".to_string())), " ");
}

#[test]
fn read_is_started() {
    let request = start_read("/file/a", &with("Range", "bytes=1-2"));
    assert_eq!(request.path, "/file/a");
    let asked = RequestedRange::Bytes(ByteRange { start: 1, end: Some(2) });
    assert_eq!(request.range, asked);
    assert_eq!(start_read("/file/a", &http::HeaderMap::new()).range, RequestedRange::Whole);
    assert_eq!(start_read("/file/a", &with("Range", "lines=1-2")).range, RequestedRange::Whole);
    assert_eq!(start_read("/file/a", &with("Range", "bytes=x-2")).range, RequestedRange::Invalid);
}

#[test]
fn range_is_planned() {
    let range = RequestedRange::Bytes(ByteRange { start: 3, end: Some(50) });
    assert!(matches!(
        plan_range(range, Ok(10)),
        RangePlan::Part { start: 3, end: 9, length: 7 }
    ));
    assert!(matches!(plan_range(RequestedRange::Whole, Ok(10)), RangePlan::Whole));
    assert!(matches!(plan_range(RequestedRange::Whole, Ok(0)), RangePlan::Whole));
}

#[test]
fn range_outside_of_the_file_is_refused() {
    let range = |start, end| RequestedRange::Bytes(ByteRange { start, end });
    for (range, size) in [
        (range(10, None), 10),
        (range(5, Some(3)), 10),
        (range(0, None), 0),
        (RequestedRange::Invalid, 11),
    ] {
        match plan_range(range, Ok(size)) {
            RangePlan::Refused(reply) => {
                assert_eq!(reply.status, 400);
                assert!(reply.body.contains("Invalid offset/length"));
            }
            plan => panic!("{plan:?}"),
        }
    }
}

#[test]
fn file_without_size_is_refused() {
    for range in [
        RequestedRange::Whole,
        RequestedRange::Invalid,
        RequestedRange::Bytes(ByteRange { start: 0, end: None }),
    ] {
        let missing = FsError { code: ErrorCode::Enoent, message: "gone".to_string() };
        match plan_range(range, Err(missing)) {
            RangePlan::Refused(reply) => assert_eq!(reply.status, 404),
            plan => panic!("{plan:?}"),
        }
    }
}

#[test]
fn whole_file_is_announced() {
    let head = whole_reply(ReadOutcome::Body { len: 12 }).unwrap();
    assert_eq!(head.status, 200);
    assert_eq!(pairs(&head.headers), [("Accept-Ranges", "bytes"), ("Content-Length", "12")]);
    assert_eq!(whole_reply(ReadOutcome::Failed(no_space())).unwrap_err().status, 507);
    let lost = whole_reply(ReadOutcome::Lost).unwrap_err();
    assert_eq!(lost.status, 500);
    assert!(lost.body.contains("Task join error"));
}

#[test]
fn part_of_a_file_is_announced() {
    let head = part_reply(3, 9, 10, ReadOutcome::Body { len: 7 }).unwrap();
    assert_eq!(head.status, 206);
    assert_eq!(
        pairs(&head.headers),
        [("Content-Range", "bytes 3-9/10"), ("Accept-Ranges", "bytes"), ("Content-Length", "7")]
    );
    assert_eq!(part_reply(3, 9, 10, ReadOutcome::Lost).unwrap_err().status, 500);
    assert_eq!(part_reply(3, 9, 10, ReadOutcome::Failed(no_space())).unwrap_err().status, 507);
}

#[test]
fn listing_is_announced() {
    let head = listing_reply(14);
    assert_eq!(head.status, 200);
    assert_eq!(
        pairs(&head.headers),
        [("content-type", "application/json"), ("content-length", "14")]
    );
    let reply = listing_failure_reply(&no_space(), "more");
    assert_eq!(reply.status, 507);
    assert!(reply.body.contains("{\"debug\":\"more\"}"));
}

#[test]
fn write_is_started() {
    match start_write("/file/a%20b", &with("Content-Range", "bytes 5-9/10")) {
        WriteStart::Write { path, offset, expected, creates } => {
            assert_eq!((path.as_str(), offset, expected, creates), ("/file/a b", 5, 5, false));
        }
        start => panic!("{start:?}"),
    }
    match start_write("/file/a", &with("Content-Range", "bytes */7")) {
        WriteStart::Truncate { path, size } => assert_eq!((path.as_str(), size), ("/file/a", 7)),
        start => panic!("{start:?}"),
    }
    match start_write("/file/a", &http::HeaderMap::new()) {
        WriteStart::Write { path, offset, expected, creates } => {
            assert_eq!((path.as_str(), offset, expected, creates), ("/file/a", 0, 0, true));
        }
        start => panic!("{start:?}"),
    }
    for (value, creation) in [("bytes 0-0/0", true), ("bytes 0-4/5", false), ("bytes 5-3/10", false)] {
        match start_write("/file/a", &with("Content-Range", value)) {
            WriteStart::Write { creates, .. } => assert_eq!(creates, creation, "{value}"),
            start => panic!("{start:?}"),
        }
    }
}

#[test]
fn write_without_a_proper_range_is_refused() {
    match start_write("/file/a", &with("Content-Range", "bytes 5")) {
        WriteStart::Refused(reply) => {
            assert_eq!(reply.status, 400);
            assert!(reply.body.contains("Invalid Content-Range format"));
            assert!(reply.body.contains("EINVAL"));
        }
        start => panic!("{start:?}"),
    }
    let all = format!("bytes 0-{}/1", u64::MAX);
    match start_write("/file/a", &with("Content-Range", &all)) {
        WriteStart::Refused(reply) => assert_eq!(reply.status, 400),
        start => panic!("{start:?}"),
    }
}

#[test]
fn move_is_started() {
    match start_write("/file/a", &with("Destination", "/file/new/b%20c")) {
        WriteStart::Rename { from, to } => {
            assert_eq!((from.as_str(), to.as_str()), ("/file/a", "/file/new/b c"));
        }
        start => panic!("{start:?}"),
    }
    assert_eq!(parse_destination("/file/b"), Some("/file/b".to_string()));
    assert_eq!(parse_destination("/dir/b"), None);
    assert_eq!(destination_request(&http::HeaderMap::new()), None);
}

#[test]
fn move_to_nowhere_is_refused() {
    let mut bytes = http::HeaderMap::new();
    bytes.insert("Destination", http::HeaderValue::from_bytes(b"/file/\xff").unwrap());
    for headers in [with("Destination", "b"), bytes] {
        assert_eq!(destination_request(&headers), Some(None));
        match start_write("/file/a", &headers) {
            WriteStart::Refused(reply) => {
                assert_eq!(reply.status, 400);
                assert!(reply.body.contains("Invalid destination"));
            }
            start => panic!("{start:?}"),
        }
    }
}

#[test]
fn creation_is_started() {
    let made = |start: CreateStart| match start {
        CreateStart::Create { path, mode } => (path, mode),
        start => panic!("{start:?}"),
    };
    assert_eq!(made(start_create_file("/file/a", None)), ("/file/a".to_string(), 0o644));
    assert_eq!(made(start_create_dir("/dir/a", None)), ("/dir/a".to_string(), 0o755));
    assert_eq!(made(start_create_file("/file/a", Some("mode=0600"))).1, 0o600);
    assert_eq!(made(start_create_dir("/dir/a%20b", Some("x=1&mode=700&mode=1"))), ("/dir/a b".to_string(), 0o700));
    assert_eq!(made(start_create_file("/file/a", Some("path=/a"))).1, 0o644);
    assert_eq!(mode_request(Some(""), 1), Some(1));
}

#[test]
fn creation_with_a_bad_mode_is_refused() {
    for query in ["mode=", "mode=rw", "mode=8", "mode=10000"] {
        for start in [start_create_file("/file/a", Some(query)), start_create_dir("/dir/a", Some(query))] {
            match start {
                CreateStart::Refused(reply) => {
                    assert_eq!(reply.status, 400);
                    assert!(reply.body.contains("Invalid mode"));
                }
                start => panic!("{start:?}"),
            }
        }
    }
}

#[test]
fn creation_is_answered() {
    let reply = created_reply(Ok(()));
    assert_eq!((reply.status, reply.headers.len(), reply.body.as_str()), (201, 0, ""));
    let taken = FsError { code: ErrorCode::Eexist, message: "taken".to_string() };
    assert_eq!(created_reply(Err(taken)).status, 409);
}

#[test]
fn attributes_are_answered() {
    let stat = FileStat {
        name: "a".to_string(),
        type_: "file".to_string(),
        size: 1234,
        mode: 0o644,
        mtime: "2024-02-18T15:04:05Z".to_string(),
        atime: "m".to_string(),
        ctime: "c".to_string(),
    };
    let reply = stat_reply(Ok(stat));
    assert_eq!(reply.status, 200);
    assert_eq!(pairs(&reply.headers), [("content-type", "application/json")]);
    assert_eq!(
        reply.body,
        "{\"type\":\"file\",\"size\":1234,\"mode\":420,\"mtime\":\"2024-02-18T15:04:05Z\",\"atime\":\"m\",\"ctime\":\"c\"}"
    );
    assert_eq!(stat_reply(Err(no_space())).status, 507);
}

#[test]
fn space_is_answered() {
    let space = SpaceMetadata {
        block_size: 4096,
        blocks: 10,
        blocks_available: u64::MAX,
        files: 7,
        files_free: 3,
    };
    let reply = stats_reply(Ok(space));
    let value: serde_json::Value = serde_json::from_str(&reply.body).unwrap();
    assert_eq!(reply.status, 200);
    assert_eq!(value["total_space"], 40960);
    assert_eq!(value["available_space"], u64::MAX);
    assert_eq!(value["files"], 7);
    assert_eq!(value["files_free"], 3);
    assert_eq!(value.as_object().unwrap().len(), 4);
    assert_eq!(stats_reply(Err(no_space())).status, 507);
}

#[test]
fn change_of_attributes_is_started() {
    let patch = AttrPatch {
        mode: Some(0o600),
        mtime: Some("1970-01-02T00:00:00Z".to_string()),
        atime: None,
    };
    let update = start_set_attributes(Some(patch)).unwrap();
    assert_eq!(update, AttrUpdate { mode: Some(0o600), mtime: Some(86400), atime: None });
    let nothing = AttrPatch { mode: None, mtime: None, atime: None };
    let update = start_set_attributes(Some(nothing)).unwrap();
    assert_eq!(update, AttrUpdate { mode: None, mtime: None, atime: None });
}

#[test]
fn bad_attributes_are_refused() {
    let time = |text: &str| Some(text.to_string());
    for patch in [
        None,
        Some(AttrPatch { mode: Some(0o10000), mtime: None, atime: None }),
        Some(AttrPatch { mode: None, mtime: time("now"), atime: None }),
        Some(AttrPatch { mode: None, mtime: None, atime: time("5") }),
    ] {
        let reply = start_set_attributes(patch).unwrap_err();
        assert_eq!(reply.status, 400);
        assert!(reply.body.contains("Invalid attributes"));
    }
}

#[test]
fn write_is_answered() {
    let reply = written_reply(5, 5);
    assert_eq!((reply.status, reply.headers.len(), reply.body.as_str()), (200, 0, ""));
    assert_eq!(written_reply(0, 7).status, 200);
    let reply = written_reply(5, 4);
    assert_eq!(reply.status, 400);
    assert!(reply.body.contains("Content length mismatch: expected 5 bytes but got 4\""));
    assert_eq!(done_reply().status, 200);
    assert_eq!(change_reply(Ok(())).status, 200);
    assert_eq!(change_reply(Err(no_space())).status, 507);
}

#[test]
fn server_listens_on_all_interfaces() {
    assert_eq!(bind_address(4433), "0.0.0.0:4433");
}
