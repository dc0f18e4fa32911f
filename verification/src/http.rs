//! The server side of the protocol: which request is served how, and what it is answered.

use crate::calendar;
use crate::encoding;
use crate::error;
use crate::error::{ErrorCode, FsError, Reply, ReplyView};
use crate::json;
use crate::json::Json;
use crate::outside;
use crate::range;
use crate::range::RequestedRange;
use crate::text;
use crate::types::{EntryView, FileStat};
use vstd::prelude::*;

verus! {

/// How many streams of each kind a client may have open at a time.
pub const MAX_STREAMS: u32 = 100;

/// How many bytes may be under way to a client.
pub const SEND_WINDOW: u64 = 8388608;

/// How many bytes may be under way from a client.
pub const RECEIVE_WINDOW: u32 = 8388608;

/// How many bytes may be under way from a client in one stream.
pub const STREAM_RECEIVE_WINDOW: u32 = 2097152;

/// How a request is served.
#[derive(Clone, Copy, Debug, PartialEq, Eq, Structural)]
pub enum Route {
    ReadFile,
    WriteFile,
    CreateFile,
    DeleteFile,
    ListDirectory,
    CreateDirectory,
    RemoveDirectory,
    GetAttributes,
    SetAttributes,
    Stats,
    NotFound,
}

/// The status and the header fields of an answer whose body follows in pieces.
#[derive(Debug)]
pub struct ReplyHead {
    pub status: u16,
    pub headers: Vec<(String, String)>,
}

/// What a [`ReplyHead`] says.
pub struct HeadView {
    pub status: u16,
    pub headers: Seq<(Seq<char>, Seq<char>)>,
}

impl View for ReplyHead {
    type V = HeadView;

    open spec fn view(&self) -> HeadView {
        HeadView { status: self.status, headers: error::header_texts(self.headers@) }
    }
}

/// A read: the path of the file as the file system takes it, and the range that is asked for.
#[derive(Debug)]
pub struct ReadRequest {
    pub path: String,
    pub range: RequestedRange,
}

/// What is to be done for a read, once the size of the file is known.
#[derive(Debug)]
pub enum RangePlan {
    /// Read the whole file.
    Whole,
    /// Read `length` bytes from `start` on; `end` is the last of them.
    Part { start: u64, end: u64, length: u64 },
    Refused(Reply),
}

/// How the reading of a body ended.
#[derive(Debug)]
pub enum ReadOutcome {
    /// So many bytes are there to be sent.
    Body { len: usize },
    Failed(FsError),
    /// The task that read the file did not end properly.
    Lost,
}

/// What is to be done for a write, before its body is received.
#[derive(Debug)]
pub enum WriteStart {
    Refused(Reply),
    /// Give the file this size. The body does not matter.
    Truncate { path: String, size: u64 },
    /// Write the body at `offset`. It should have `expected` bytes, unless that is 0. `creates` says
    /// that the file is to be made even if the body is empty.
    Write { path: String, offset: u64, expected: u64, creates: bool },
    /// Give the file another path. The body does not matter.
    Rename { from: String, to: String },
}

/// What is to be done for the creation of a file or a directory.
#[derive(Debug)]
pub enum CreateStart {
    Refused(Reply),
    /// Make it, with these permissions.
    Create { path: String, mode: u32 },
}

/// What the operating system says of the space for files.
#[derive(Clone, Copy, Debug, PartialEq, Eq, Structural)]
pub struct SpaceMetadata {
    /// The size of a block.
    pub block_size: u64,
    pub blocks: u64,
    pub blocks_available: u64,
    pub files: u64,
    pub files_free: u64,
}

/// The attributes that a request asks to change. A point in time is written in ISO 8601.
#[derive(Debug)]
pub struct AttrPatch {
    pub mode: Option<u32>,
    pub mtime: Option<String>,
    pub atime: Option<String>,
}

/// The attributes that are to be changed. A point in time is given in seconds since the start of
/// 1970.
#[derive(Clone, Copy, Debug, PartialEq, Eq, Structural)]
pub struct AttrUpdate {
    pub mode: Option<u32>,
    pub mtime: Option<u64>,
    pub atime: Option<u64>,
}

/// The permissions of a file that is made without any given.
pub const FILE_MODE: u32 = 0o644;

/// The permissions of a directory that is made without any given.
pub const DIR_MODE: u32 = 0o755;

/// All bits that permissions can have.
pub const MODE_LIMIT: u32 = 0o7777;

/// The route of a request.
pub open spec fn route_of(method: Seq<char>, path: Seq<char>) -> Route {
    if "/file/"@.is_prefix_of(path) {
        if method == "GET"@ {
            Route::ReadFile
        } else if method == "PATCH"@ {
            Route::WriteFile
        } else if method == "PUT"@ {
            Route::CreateFile
        } else if method == "DELETE"@ {
            Route::DeleteFile
        } else {
            Route::NotFound
        }
    } else if "/dir/"@.is_prefix_of(path) {
        if method == "GET"@ {
            Route::ListDirectory
        } else if method == "PUT"@ {
            Route::CreateDirectory
        } else if method == "DELETE"@ {
            Route::RemoveDirectory
        } else {
            Route::NotFound
        }
    } else if "/attr/"@.is_prefix_of(path) {
        if method == "GET"@ {
            Route::GetAttributes
        } else if method == "PATCH"@ {
            Route::SetAttributes
        } else {
            Route::NotFound
        }
    } else if path == "/fs/stats"@ && method == "GET"@ {
        Route::Stats
    } else {
        Route::NotFound
    }
}

/// A part of a URL, decoded, or as it is if it does not decode to UTF-8. So the path is valid
/// UTF-8 in any case.
pub open spec fn decoded(raw: Seq<char>) -> Seq<char> {
    match encoding::percent_decoded(raw) {
        Some(text) => text,
        None => raw,
    }
}

/// The path of the file that a request on a file is about.
pub open spec fn requested_file(uri_path: Seq<char>) -> Seq<char> {
    "/file/"@ + decoded(text::strip_once(uri_path, "/file/"@))
}

/// The path of the directory that a request on a directory is about.
pub open spec fn requested_dir(uri_path: Seq<char>) -> Seq<char> {
    "/dir/"@ + decoded(text::strip_once(uri_path, "/dir/"@))
}

/// The path that a request on attributes is about.
pub open spec fn requested_attr(uri_path: Seq<char>) -> Seq<char> {
    "/attr/"@ + decoded(text::strip_once(uri_path, "/attr/"@))
}

/// The range that a request asks for.
pub open spec fn requested_range(headers: http::HeaderMap) -> RequestedRange {
    match range::header_value(headers, "Range"@) {
        Some(value) => range::range_of(value),
        None => RequestedRange::Whole,
    }
}

/// The path to which a request moves a file: `None` if it does not move it, and `Some(None)` if
/// the field `Destination` names no file.
pub open spec fn requested_destination(headers: http::HeaderMap) -> Option<Option<Seq<char>>> {
    if outside::header_fields(headers).contains_key(outside::lower_case("Destination"@)) {
        match range::header_value(headers, "Destination"@) {
            Some(value) => Some(destination_of(value)),
            None => Some(None),
        }
    } else {
        None
    }
}

/// The path of the file that the field `Destination` names, if it names one.
pub open spec fn destination_of(value: Seq<char>) -> Option<Seq<char>> {
    if "/file/"@.is_prefix_of(value) {
        Some(requested_file(value))
    } else {
        None
    }
}

/// What follows `prefix` in the first of the parts that start with it.
pub open spec fn first_with(parts: Seq<Seq<char>>, prefix: Seq<char>) -> Option<Seq<char>>
    decreases parts.len(),
{
    if parts.len() == 0 {
        None
    } else if prefix.is_prefix_of(parts[0]) {
        Some(parts[0].skip(prefix.len() as int))
    } else {
        first_with(parts.skip(1), prefix)
    }
}

/// The permissions that the query of a request gives as `mode`, in base eight. Where it gives
/// none, they are `default`; what it gives must be permissions.
pub open spec fn requested_mode(query: Option<Seq<char>>, default: u32) -> Option<u32> {
    match query {
        Some(query) => match first_with(text::parts(query, '&'), "mode="@) {
            Some(value) => text::octal_of(value, MODE_LIMIT),
            None => Some(default),
        },
        None => Some(default),
    }
}

/// A point in time that is to be set: `None` if it is written in another way than ISO 8601.
pub open spec fn time_update(time: Option<Seq<char>>) -> Option<Option<u64>> {
    match time {
        Some(time) => match calendar::seconds_of(time) {
            Some(secs) => Some(Some(secs)),
            None => None,
        },
        None => Some(None),
    }
}

/// The answer to a request that nothing serves.
pub open spec fn not_found_answer(path: Seq<char>) -> ReplyView {
    error::error_answer(ErrorCode::Enoent, "Not found"@, None, Some(path))
}

/// The answer to a range that does not lie in the file.
pub open spec fn bad_range_answer() -> ReplyView {
    error::error_answer(ErrorCode::Einval, "Invalid offset/length"@, None, None)
}

/// The answer to a request for a creation with a mode that is none.
pub open spec fn bad_mode_answer() -> ReplyView {
    error::error_answer(ErrorCode::Einval, "Invalid mode"@, None, None)
}

/// The answer to a request for a move to what is no file.
pub open spec fn bad_destination_answer() -> ReplyView {
    error::error_answer(ErrorCode::Einval, "Invalid destination"@, None, None)
}

/// The answer to a request for a change of attributes that cannot be understood.
pub open spec fn bad_attributes_answer() -> ReplyView {
    error::error_answer(ErrorCode::Einval, "Invalid attributes"@, None, None)
}

/// An answer with a JSON object.
pub open spec fn object_answer(members: Seq<(Seq<char>, json::JsonValue)>) -> ReplyView {
    ReplyView {
        status: 200,
        headers: seq![("content-type"@, "application/json"@)],
        body: json::object_text(members),
    }
}

/// The members that tell the attributes of a file or a directory.
pub open spec fn stat_members(stat: EntryView) -> Seq<(Seq<char>, json::JsonValue)> {
    seq![
        ("type"@, json::JsonValue::Text(stat.type_)),
        ("size"@, json::JsonValue::Number(stat.size)),
        ("mode"@, json::JsonValue::Number(stat.mode as u64)),
        ("mtime"@, json::JsonValue::Text(stat.mtime)),
        ("atime"@, json::JsonValue::Text(stat.atime)),
        ("ctime"@, json::JsonValue::Text(stat.ctime)),
    ]
}

/// How many bytes some blocks hold, as far as that can be counted.
pub open spec fn bytes_of_blocks(blocks: u64, block_size: u64) -> u64 {
    if blocks * block_size <= u64::MAX {
        (blocks * block_size) as u64
    } else {
        u64::MAX
    }
}

/// The members that tell the space for files.
pub open spec fn stats_members(space: SpaceMetadata) -> Seq<(Seq<char>, json::JsonValue)> {
    seq![
        (
            "total_space"@,
            json::JsonValue::Number(bytes_of_blocks(space.blocks, space.block_size)),
        ),
        (
            "available_space"@,
            json::JsonValue::Number(bytes_of_blocks(space.blocks_available, space.block_size)),
        ),
        ("files"@, json::JsonValue::Number(space.files)),
        ("files_free"@, json::JsonValue::Number(space.files_free)),
    ]
}

/// The head of an answer with a whole file of `len` bytes.
pub open spec fn whole_head(len: nat) -> HeadView {
    HeadView {
        status: 200,
        headers: seq![("Accept-Ranges"@, "bytes"@), ("Content-Length"@, text::decimal(len))],
    }
}

/// The head of an answer with `len` bytes, the bytes from `start` to `end` of a file of `size`
/// bytes.
pub open spec fn part_head(start: u64, end: u64, size: u64, len: nat) -> HeadView {
    HeadView {
        status: 206,
        headers: seq![
            ("Content-Range"@, range::content_range_text(start as nat, end as nat, size as nat)),
            ("Accept-Ranges"@, "bytes"@),
            ("Content-Length"@, text::decimal(len)),
        ],
    }
}

/// The head of an answer with a listing whose JSON text has `len` bytes.
pub open spec fn listing_head(len: nat) -> HeadView {
    HeadView {
        status: 200,
        headers: seq![
            ("content-type"@, "application/json"@),
            ("content-length"@, text::decimal(len)),
        ],
    }
}

/// The answer to a creation that was made.
pub open spec fn created_answer() -> ReplyView {
    ReplyView { status: 201, headers: Seq::empty(), body: Seq::empty() }
}

/// The answer to a change that was made.
pub open spec fn done_answer() -> ReplyView {
    ReplyView { status: 200, headers: Seq::empty(), body: Seq::empty() }
}

/// The answer to a write whose body has not the promised length.
pub open spec fn mismatch_answer(expected: nat, received: nat) -> ReplyView {
    error::error_answer(
        ErrorCode::Einval,
        "Content length mismatch: expected "@ + text::decimal(expected) + " bytes but got "@
            + text::decimal(received),
        None,
        None,
    )
}

/// The answer to a write whose body was received whole and written; a promise of 0 bytes is none.
pub open spec fn written_answer(expected: nat, received: nat) -> ReplyView {
    if expected > 0 && received != expected {
        mismatch_answer(expected, received)
    } else {
        done_answer()
    }
}

/// The answer to a read that failed, in a task that may have been lost.
pub open spec fn read_failure(outcome: ReadOutcome) -> Option<ReplyView> {
    match outcome {
        ReadOutcome::Body { len } => None,
        ReadOutcome::Failed(error) => Some(
            error::failure_answer(error.code, error.message@),
        ),
        ReadOutcome::Lost => Some(
            error::error_answer(ErrorCode::Eio, "Task join error"@, None, None),
        ),
    }
}

/// The address on which the server listens: all interfaces, at that port.
pub fn bind_address(port: u16) -> (address: String)
    ensures
        address@ == "0.0.0.0:"@ + text::decimal(port as nat),
{
    let mut address: String = "0.0.0.0:".to_owned();
    address.append(text::decimal_text(port as u64).as_str());
    address
}

/// Decides how a request is served.
pub fn handle_request(method: &str, path: &str) -> (route: Route)
    ensures
        route == route_of(method@, path@),
{
    if text::has_prefix(path, "/file/") {
        if text::same(method, "GET") {
            Route::ReadFile
        } else if text::same(method, "PATCH") {
            Route::WriteFile
        } else if text::same(method, "PUT") {
            Route::CreateFile
        } else if text::same(method, "DELETE") {
            Route::DeleteFile
        } else {
            Route::NotFound
        }
    } else if text::has_prefix(path, "/dir/") {
        if text::same(method, "GET") {
            Route::ListDirectory
        } else if text::same(method, "PUT") {
            Route::CreateDirectory
        } else if text::same(method, "DELETE") {
            Route::RemoveDirectory
        } else {
            Route::NotFound
        }
    } else if text::has_prefix(path, "/attr/") {
        if text::same(method, "GET") {
            Route::GetAttributes
        } else if text::same(method, "PATCH") {
            Route::SetAttributes
        } else {
            Route::NotFound
        }
    } else if text::same(path, "/fs/stats") && text::same(method, "GET") {
        Route::Stats
    } else {
        Route::NotFound
    }
}

/// Answers a request that nothing serves.
pub fn not_found_reply(path: &str) -> (reply: Reply)
    ensures
        reply@ == not_found_answer(path@),
{
    error::error_reply(ErrorCode::Enoent, "Not found", None, Some(path))
}

/// A part of a URL that was decoded, or as it is if it could not be decoded.
pub fn decoded_or_raw(raw: &str, decoded: Option<String>) -> (path: String)
    ensures
        path@ == match decoded {
            Some(decoded) => decoded@,
            None => raw@,
        },
{
    match decoded {
        Some(decoded) => decoded,
        None => raw.to_owned(),
    }
}

/// Decodes a part of a URL. One without `%` stays as it is.
pub fn decode_part(raw: &str) -> (path: String)
    ensures
        path@ == decoded(raw@),
        !raw@.contains('%') ==> path@ == raw@,
{
    proof {
        if !raw@.contains('%') {
            encoding::plain_text_stays(raw@);
        }
    }
    decoded_or_raw(raw, outside::percent_decode(raw))
}

/// The path of the file that a request on a file is about. Where the URL holds no `%` behind its
/// prefix, that is the path itself.
pub fn file_request_path(uri_path: &str) -> (path: String)
    ensures
        path@ == requested_file(uri_path@),
        !text::strip_once(uri_path@, "/file/"@).contains('%') ==> path@ == "/file/"@
            + text::strip_once(uri_path@, "/file/"@),
{
    let mut path: String = "/file/".to_owned();
    path.append(decode_part(text::without_prefix(uri_path, "/file/")).as_str());
    path
}

/// The path of the directory that a request on a directory is about.
pub fn dir_request_path(uri_path: &str) -> (path: String)
    ensures
        path@ == requested_dir(uri_path@),
{
    let mut path: String = "/dir/".to_owned();
    path.append(decode_part(text::without_prefix(uri_path, "/dir/")).as_str());
    path
}

/// The path that a request on attributes is about.
pub fn attr_request_path(uri_path: &str) -> (path: String)
    ensures
        path@ == requested_attr(uri_path@),
{
    let mut path: String = "/attr/".to_owned();
    path.append(decode_part(text::without_prefix(uri_path, "/attr/")).as_str());
    path
}

/// Reads the range that a request asks for.
pub fn range_request(headers: &http::HeaderMap) -> (range: RequestedRange)
    ensures
        range == requested_range(*headers),
{
    match range::header_str(headers, "Range") {
        Some(value) => range::parse_range(value.as_str()),
        None => RequestedRange::Whole,
    }
}

/// Starts a read: finds the file and the range that the request is about.
pub fn start_read(uri_path: &str, headers: &http::HeaderMap) -> (request: ReadRequest)
    ensures
        request.path@ == requested_file(uri_path@),
        request.range == requested_range(*headers),
{
    ReadRequest { path: file_request_path(uri_path), range: range_request(headers) }
}

/// Refuses a range that does not lie in the file.
fn bad_range_reply() -> (reply: Reply)
    ensures
        reply@ == bad_range_answer(),
{
    error::error_reply(ErrorCode::Einval, "Invalid offset/length", None, None)
}

/// `plan` is what is to be read for a range of a file of that size, or whose size was not found.
pub open spec fn planned(
    plan: RangePlan,
    range: RequestedRange,
    size: Result<u64, FsError>,
) -> bool {
    match (size, range) {
        (Err(error), _) => plan matches RangePlan::Refused(reply) && reply@
            == error::failure_answer(error.code, error.message@),
        (Ok(_), RequestedRange::Whole) => plan is Whole,
        (Ok(_), RequestedRange::Invalid) => plan matches RangePlan::Refused(reply) && reply@
            == bad_range_answer(),
        (Ok(size), RequestedRange::Bytes(range)) => match range::bytes_of_range(range, size) {
            Some((start, end)) => plan matches RangePlan::Part { start: s, end: e, length: n } && s
                == start && e == end && n == end - start + 1,
            None => plan matches RangePlan::Refused(reply) && reply@ == bad_range_answer(),
        },
    }
}

/// Decides what to read, once the size of the file is known or could not be found.
pub fn plan_range(range: RequestedRange, size: Result<u64, FsError>) -> (plan: RangePlan)
    ensures
        planned(plan, range, size),
{
    let size: u64 = match size {
        Ok(size) => size,
        Err(error) => {
            return RangePlan::Refused(error::failure_reply(&error));
        },
    };
    match range {
        RequestedRange::Whole => RangePlan::Whole,
        RequestedRange::Invalid => RangePlan::Refused(bad_range_reply()),
        RequestedRange::Bytes(range) => match range::resolve_range(range, size) {
            Some((start, end)) => RangePlan::Part { start, end, length: end - start + 1 },
            None => RangePlan::Refused(bad_range_reply()),
        },
    }
}

/// `head` is the start of the answer to a read of a whole file, or the answer to one that failed.
pub open spec fn whole_answered(head: Result<ReplyHead, Reply>, outcome: ReadOutcome) -> bool {
    match read_failure(outcome) {
        Some(answer) => head matches Err(reply) && reply@ == answer,
        None => head matches Ok(head) && head@ == whole_head(outcome->Body_len as nat),
    }
}

/// `head` is the start of the answer to a read of a part, or the answer to one that failed.
pub open spec fn part_answered(
    head: Result<ReplyHead, Reply>,
    start: u64,
    end: u64,
    size: u64,
    outcome: ReadOutcome,
) -> bool {
    match read_failure(outcome) {
        Some(answer) => head matches Err(reply) && reply@ == answer,
        None => head matches Ok(head) && head@ == part_head(
            start,
            end,
            size,
            outcome->Body_len as nat,
        ),
    }
}

/// Answers a read of a whole file with the head of the answer, or with an error.
pub fn whole_reply(outcome: ReadOutcome) -> (head: Result<ReplyHead, Reply>)
    ensures
        whole_answered(head, outcome),
{
    match outcome {
        ReadOutcome::Body { len } => {
            let mut headers: Vec<(String, String)> = Vec::new();
            headers.push(("Accept-Ranges".to_owned(), "bytes".to_owned()));
            headers.push(("Content-Length".to_owned(), text::decimal_text(len as u64)));
            let head = ReplyHead { status: 200, headers };
            proof {
                assert(head@.headers =~= whole_head(len as nat).headers);
            }
            Ok(head)
        },
        ReadOutcome::Failed(error) => Err(error::failure_reply(&error)),
        ReadOutcome::Lost => Err(error::error_reply(ErrorCode::Eio, "Task join error", None, None)),
    }
}

/// Answers a read of the bytes from `start` to `end` of a file of `size` bytes with the head of
/// the answer, or with an error.
pub fn part_reply(start: u64, end: u64, size: u64, outcome: ReadOutcome) -> (head: Result<
    ReplyHead,
    Reply,
>)
    ensures
        part_answered(head, start, end, size, outcome),
{
    match outcome {
        ReadOutcome::Body { len } => {
            let mut headers: Vec<(String, String)> = Vec::new();
            headers.push(
                ("Content-Range".to_owned(), range::write_content_range(start, end, size)),
            );
            headers.push(("Accept-Ranges".to_owned(), "bytes".to_owned()));
            headers.push(("Content-Length".to_owned(), text::decimal_text(len as u64)));
            let head = ReplyHead { status: 206, headers };
            proof {
                assert(head@.headers =~= part_head(start, end, size, len as nat).headers);
            }
            Ok(head)
        },
        ReadOutcome::Failed(error) => Err(error::failure_reply(&error)),
        ReadOutcome::Lost => Err(error::error_reply(ErrorCode::Eio, "Task join error", None, None)),
    }
}

/// Answers a request for a listing with the head of the answer, where `len` is the length of the
/// listing as JSON.
pub fn listing_reply(len: usize) -> (head: ReplyHead)
    ensures
        head@ == listing_head(len as nat),
{
    let mut headers: Vec<(String, String)> = Vec::new();
    headers.push(("content-type".to_owned(), "application/json".to_owned()));
    headers.push(("content-length".to_owned(), text::decimal_text(len as u64)));
    let head = ReplyHead { status: 200, headers };
    proof {
        assert(head@.headers =~= listing_head(len as nat).headers);
    }
    head
}

/// Answers a request for a listing that failed; `debug` tells a developer more.
pub fn listing_failure_reply(error: &FsError, debug: &str) -> (reply: Reply)
    ensures
        reply@ == error::error_answer(error.code, error.message@, Some(debug@), None),
{
    error::error_reply(error.code, error.message.as_str(), Some(debug), None)
}

/// Reads the path to which a request moves a file.
pub fn destination_request(headers: &http::HeaderMap) -> (destination: Option<Option<String>>)
    ensures
        match (destination, requested_destination(*headers)) {
            (None, None) => true,
            (Some(None), Some(None)) => true,
            (Some(Some(path)), Some(Some(meant))) => path@ == meant,
            _ => false,
        },
{
    if outside::header_field(headers, "Destination").is_none() {
        return None;
    }
    match range::header_str(headers, "Destination") {
        Some(value) => Some(parse_destination(value.as_str())),
        None => Some(None),
    }
}

/// Reads the field `Destination`.
pub fn parse_destination(value: &str) -> (destination: Option<String>)
    ensures
        match destination {
            Some(path) => destination_of(value@) == Some(path@),
            None => destination_of(value@) is None,
        },
{
    if text::has_prefix(value, "/file/") {
        Some(file_request_path(value))
    } else {
        None
    }
}

/// Refuses a move to what is no file.
pub fn bad_destination_reply() -> (reply: Reply)
    ensures
        reply@ == bad_destination_answer(),
{
    error::error_reply(ErrorCode::Einval, "Invalid destination", None, None)
}

/// What is to be done for a write or a truncation of the file at `file`, of which `Content-Range`
/// says `value`.
pub open spec fn write_decided(
    start: WriteStart,
    file: Seq<char>,
    value: Option<Seq<char>>,
) -> bool {
    match (value, range::write_extent(value)) {
        (None, _) => start matches WriteStart::Write { path, offset, expected, creates } && path@
            == file && offset == 0 && expected == 0 && creates,
        (Some(_), Err(message)) => start matches WriteStart::Refused(reply) && reply@
            == error::failure_answer(ErrorCode::Einval, message),
        (Some(_), Ok((size, None))) => start matches WriteStart::Truncate { path, size: s }
            && path@ == file && Some(s) == size,
        (Some(_), Ok((offset, Some(len)))) => start matches WriteStart::Write {
            path,
            offset: o,
            expected,
            creates,
        } && path@ == file && Some(o) == offset && expected == len && creates
            == range::is_creation(value),
    }
}

/// `start` is what is to be done for a change of a file: a move where the request names a goal, and
/// else what `Content-Range` says.
pub open spec fn change_decided(
    start: WriteStart,
    uri_path: Seq<char>,
    headers: http::HeaderMap,
) -> bool {
    match requested_destination(headers) {
        Some(Some(meant)) => start matches WriteStart::Rename { from, to } && from@
            == requested_file(uri_path) && to@ == meant,
        Some(None) => start matches WriteStart::Refused(reply) && reply@
            == bad_destination_answer(),
        None => write_decided(
            start,
            requested_file(uri_path),
            range::header_value(headers, "Content-Range"@),
        ),
    }
}

/// Starts a change of a file: finds the file that the request is about, and whether it is to be
/// moved, cut or written, and where. Without `Content-Range` it is written from its start on.
pub fn start_write(uri_path: &str, headers: &http::HeaderMap) -> (start: WriteStart)
    ensures
        change_decided(start, uri_path@, *headers),
{
    match destination_request(headers) {
        Some(Some(to)) => {
            return WriteStart::Rename { from: file_request_path(uri_path), to };
        },
        Some(None) => {
            return WriteStart::Refused(bad_destination_reply());
        },
        None => {},
    }
    let path: String = file_request_path(uri_path);
    let creates: bool = match range::header_str(headers, "Content-Range") {
        Some(value) => range::creates_file(Some(value.as_str())),
        None => {
            return WriteStart::Write { path, offset: 0, expected: 0, creates: true };
        },
    };
    match range::parse_content_range(headers) {
        Ok((offset, Some(expected))) => WriteStart::Write {
            path,
            offset: match offset {
                Some(offset) => offset,
                None => 0,
            },
            expected,
            creates,
        },
        Ok((size, None)) => WriteStart::Truncate {
            path,
            size: match size {
                Some(size) => size,
                None => 0,
            },
        },
        Err(message) => WriteStart::Refused(
            error::error_reply(ErrorCode::Einval, message.as_str(), None, None),
        ),
    }
}

/// Finds the part of a query that starts with `prefix`.
fn query_part(query: &str, prefix: &str) -> (value: Option<String>)
    ensures
        match value {
            Some(value) => first_with(text::parts(query@, '&'), prefix@) == Some(value@),
            None => first_with(text::parts(query@, '&'), prefix@) is None,
        },
{
    let pieces: Vec<String> = text::split_all(query, '&');
    let ghost all = text::texts(pieces@);
    let mut i: usize = 0;
    proof {
        assert(all.skip(0) =~= all);
    }
    while i < pieces.len()
        invariant
            i <= pieces.len(),
            all == text::texts(pieces@),
            first_with(all, prefix@) == first_with(all.skip(i as int), prefix@),
            all == text::parts(query@, '&'),
        decreases pieces.len() - i,
    {
        proof {
            assert(all.skip(i as int)[0] == pieces@[i as int]@);
            assert(all.skip(i as int).skip(1) =~= all.skip(i + 1));
        }
        match text::strip_prefix(pieces[i].as_str(), prefix) {
            Some(value) => {
                return Some(value.to_owned());
            },
            None => {},
        }
        i = i + 1;
    }
    None
}

/// Reads the permissions that the query of a request gives.
pub fn mode_request(query: Option<&str>, default: u32) -> (mode: Option<u32>)
    ensures
        mode == requested_mode(
            match query {
                Some(query) => Some(query@),
                None => None,
            },
            default,
        ),
{
    match query {
        Some(query) => match query_part(query, "mode=") {
            Some(value) => text::parse_octal(value.as_str(), MODE_LIMIT),
            None => Some(default),
        },
        None => Some(default),
    }
}

/// `start` is what is to be done for a creation at `path` with that mode.
pub open spec fn creation_decided(start: CreateStart, meant: Seq<char>, mode: Option<u32>) -> bool {
    match mode {
        Some(mode) => start matches CreateStart::Create { path, mode: m } && path@ == meant && m
            == mode,
        None => start matches CreateStart::Refused(reply) && reply@ == bad_mode_answer(),
    }
}

/// Starts the creation of a file.
pub fn start_create_file(uri_path: &str, query: Option<&str>) -> (start: CreateStart)
    ensures
        creation_decided(
            start,
            requested_file(uri_path@),
            requested_mode(
                match query {
                    Some(query) => Some(query@),
                    None => None,
                },
                FILE_MODE,
            ),
        ),
{
    match mode_request(query, FILE_MODE) {
        Some(mode) => CreateStart::Create { path: file_request_path(uri_path), mode },
        None => CreateStart::Refused(
            error::error_reply(ErrorCode::Einval, "Invalid mode", None, None),
        ),
    }
}

/// Starts the creation of a directory.
pub fn start_create_dir(uri_path: &str, query: Option<&str>) -> (start: CreateStart)
    ensures
        creation_decided(
            start,
            requested_dir(uri_path@),
            requested_mode(
                match query {
                    Some(query) => Some(query@),
                    None => None,
                },
                DIR_MODE,
            ),
        ),
{
    match mode_request(query, DIR_MODE) {
        Some(mode) => CreateStart::Create { path: dir_request_path(uri_path), mode },
        None => CreateStart::Refused(
            error::error_reply(ErrorCode::Einval, "Invalid mode", None, None),
        ),
    }
}

/// The answer to an operation that failed, or `done` if it did not.
pub open spec fn outcome_answer(outcome: Result<(), FsError>, done: ReplyView) -> ReplyView {
    match outcome {
        Ok(()) => done,
        Err(error) => error::failure_answer(error.code, error.message@),
    }
}

/// Answers a creation that was made or failed.
pub fn created_reply(outcome: Result<(), FsError>) -> (reply: Reply)
    ensures
        reply@ == outcome_answer(outcome, created_answer()),
{
    match outcome {
        Ok(()) => {
            let reply = Reply { status: 201, headers: Vec::new(), body: String::new() };
            proof {
                assert(reply@.headers =~= Seq::<(Seq<char>, Seq<char>)>::empty());
            }
            reply
        },
        Err(error) => error::failure_reply(&error),
    }
}

/// Answers with a JSON object.
fn object_reply(members: &Vec<(String, Json)>) -> (reply: Reply)
    ensures
        reply@ == object_answer(json::members_of(members@)),
{
    let mut headers: Vec<(String, String)> = Vec::new();
    headers.push(("content-type".to_owned(), "application/json".to_owned()));
    let reply = Reply { status: 200, headers, body: json::object_string(members) };
    proof {
        assert(reply@.headers =~= seq![("content-type"@, "application/json"@)]);
    }
    reply
}

/// The answer to a request for attributes.
pub open spec fn stat_answer(stat: Result<FileStat, FsError>) -> ReplyView {
    match stat {
        Ok(stat) => object_answer(stat_members(stat@)),
        Err(error) => error::failure_answer(error.code, error.message@),
    }
}

/// Answers a request for attributes with them, or with an error.
pub fn stat_reply(stat: Result<FileStat, FsError>) -> (reply: Reply)
    ensures
        reply@ == stat_answer(stat),
{
    let stat: FileStat = match stat {
        Ok(stat) => stat,
        Err(error) => {
            return error::failure_reply(&error);
        },
    };
    let ghost view = stat@;
    let mut members: Vec<(String, Json)> = Vec::new();
    members.push(("type".to_owned(), Json::Text(stat.type_)));
    members.push(("size".to_owned(), Json::Number(stat.size)));
    members.push(("mode".to_owned(), Json::Number(stat.mode as u64)));
    members.push(("mtime".to_owned(), Json::Text(stat.mtime)));
    members.push(("atime".to_owned(), Json::Text(stat.atime)));
    members.push(("ctime".to_owned(), Json::Text(stat.ctime)));
    proof {
        assert(json::members_of(members@) =~= stat_members(view));
    }
    object_reply(&members)
}

/// How many bytes some blocks hold, as far as that can be counted.
fn block_bytes(blocks: u64, block_size: u64) -> (bytes: u64)
    ensures
        bytes == bytes_of_blocks(blocks, block_size),
{
    match blocks.checked_mul(block_size) {
        Some(bytes) => bytes,
        None => u64::MAX,
    }
}

/// The answer to a request for the space for files.
pub open spec fn stats_answer(space: Result<SpaceMetadata, FsError>) -> ReplyView {
    match space {
        Ok(space) => object_answer(stats_members(space)),
        Err(error) => error::failure_answer(error.code, error.message@),
    }
}

/// Answers a request for the space for files with it, or with an error.
pub fn stats_reply(space: Result<SpaceMetadata, FsError>) -> (reply: Reply)
    ensures
        reply@ == stats_answer(space),
{
    let space: SpaceMetadata = match space {
        Ok(space) => space,
        Err(error) => {
            return error::failure_reply(&error);
        },
    };
    let total: u64 = block_bytes(space.blocks, space.block_size);
    let available: u64 = block_bytes(space.blocks_available, space.block_size);
    let mut members: Vec<(String, Json)> = Vec::new();
    members.push(("total_space".to_owned(), Json::Number(total)));
    members.push(("available_space".to_owned(), Json::Number(available)));
    members.push(("files".to_owned(), Json::Number(space.files)));
    members.push(("files_free".to_owned(), Json::Number(space.files_free)));
    proof {
        assert(json::members_of(members@) =~= stats_members(space));
    }
    object_reply(&members)
}

/// Reads a point in time that is to be set.
fn time_request(time: &Option<String>) -> (update: Option<Option<u64>>)
    ensures
        update == time_update(
            match time {
                Some(time) => Some(time@),
                None => None,
            },
        ),
{
    match time {
        Some(time) => match calendar::parse_iso8601(time.as_str()) {
            Some(secs) => Some(Some(secs)),
            None => None,
        },
        None => Some(None),
    }
}

/// The changes of attributes that a request asks for, if they can be understood.
pub open spec fn requested_update(
    mode: Option<u32>,
    mtime: Option<Seq<char>>,
    atime: Option<Seq<char>>,
) -> Option<AttrUpdate> {
    if mode is Some && mode->0 > MODE_LIMIT {
        None
    } else {
        match (time_update(mtime), time_update(atime)) {
            (Some(mtime), Some(atime)) => Some(AttrUpdate { mode, mtime, atime }),
            _ => None,
        }
    }
}

/// `update` is what is to be changed for a patch of attributes, or the answer to one that cannot be
/// understood.
pub open spec fn update_decided(
    update: Result<AttrUpdate, Reply>,
    patch: Option<AttrPatch>,
) -> bool {
    let meant = match patch {
        Some(patch) => requested_update(
            patch.mode,
            match patch.mtime {
                Some(time) => Some(time@),
                None => None,
            },
            match patch.atime {
                Some(time) => Some(time@),
                None => None,
            },
        ),
        None => None,
    };
    match meant {
        Some(meant) => update matches Ok(update) && update == meant,
        None => update matches Err(reply) && reply@ == bad_attributes_answer(),
    }
}

/// Starts a change of attributes. A body that was no patch of attributes, or one that gives what
/// is no mode or no point in time, is refused.
pub fn start_set_attributes(patch: Option<AttrPatch>) -> (update: Result<AttrUpdate, Reply>)
    ensures
        update_decided(update, patch),
{
    match patch {
        Some(patch) => {
            let known: bool = match patch.mode {
                Some(mode) => mode <= MODE_LIMIT,
                None => true,
            };
            match (time_request(&patch.mtime), time_request(&patch.atime)) {
                (Some(mtime), Some(atime)) => {
                    if known {
                        return Ok(AttrUpdate { mode: patch.mode, mtime, atime });
                    }
                },
                _ => {},
            }
        },
        None => {},
    }
    Err(error::error_reply(ErrorCode::Einval, "Invalid attributes", None, None))
}

/// Answers a change that was made.
pub fn done_reply() -> (reply: Reply)
    ensures
        reply@ == done_answer(),
{
    let reply = Reply { status: 200, headers: Vec::new(), body: String::new() };
    proof {
        assert(reply@.headers =~= Seq::<(Seq<char>, Seq<char>)>::empty());
    }
    reply
}

/// Answers a change of a file that was made or failed.
pub fn change_reply(outcome: Result<(), FsError>) -> (reply: Reply)
    ensures
        reply@ == outcome_answer(outcome, done_answer()),
{
    match outcome {
        Ok(()) => done_reply(),
        Err(error) => error::failure_reply(&error),
    }
}

/// Answers a write whose body was received whole and written.
pub fn written_reply(expected: u64, received: u64) -> (reply: Reply)
    ensures
        reply@ == written_answer(expected as nat, received as nat),
{
    if expected > 0 && received != expected {
        let mut message: String = "Content length mismatch: expected ".to_owned();
        message.append(text::decimal_text(expected).as_str());
        message.append(" bytes but got ");
        message.append(text::decimal_text(received).as_str());
        error::error_reply(ErrorCode::Einval, message.as_str(), None, None)
    } else {
        done_reply()
    }
}

} // verus!
