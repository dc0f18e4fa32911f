//! The same operations for a server that hands over the path below `/file/` or `/dir/` and the
//! whole body of a write.

use crate::error;
use crate::error::{ErrorCode, Reply, ReplyView};
use crate::http as server;
use crate::range;
use crate::range::ContentRange;
use crate::text;
use vstd::prelude::*;

verus! {

/// What is to be done for a write.
#[derive(Debug)]
pub enum WriteDecision {
    Refused(Reply),
    /// Give the file this size.
    Truncate { path: String, size: u64 },
    /// Write the body at `offset`.
    Write { path: String, offset: u64 },
    /// Give the file another path.
    Rename { from: String, to: String },
}

/// The path of the file for the part of a URL below `/file/`.
pub open spec fn file_named(path: Seq<char>) -> Seq<char> {
    "/file/"@ + server::decoded(path)
}

/// The path of the directory for the part of a URL below `/dir/`.
pub open spec fn dir_named(path: Option<Seq<char>>) -> Seq<char> {
    match path {
        Some(path) => "/dir/"@ + server::decoded(path),
        None => "/dir/"@,
    }
}

/// The answer to a write whose body has not the length of its span.
pub open spec fn span_mismatch_answer(
    expected: nat,
    received: nat,
    start: u64,
    end: u64,
    total: u64,
) -> ReplyView {
    error::error_answer(
        ErrorCode::Einval,
        "Content length mismatch: expected "@ + text::decimal(expected) + " bytes but got "@
            + text::decimal(received) + " (range: "@ + text::decimal(start as nat) + "-"@
            + text::decimal(end as nat) + "/"@ + text::decimal(total as nat) + ")"@,
        None,
        None,
    )
}

/// `decision` is what is to be done for a write of `len` bytes to `file`, of which `Content-Range`
/// says `value`.
pub open spec fn decided(
    decision: WriteDecision,
    file: Seq<char>,
    value: Option<Seq<char>>,
    len: nat,
) -> bool {
    match value {
        None => decision matches WriteDecision::Write { path, offset } && path@ == file && offset
            == 0,
        Some(value) => match range::content_range_of(value) {
            Err(message) => decision matches WriteDecision::Refused(reply) && reply@
                == error::failure_answer(ErrorCode::Einval, message),
            Ok(ContentRange::Truncate { size }) => if len > 0 {
                decision matches WriteDecision::Refused(reply) && reply@ == error::failure_answer(
                    ErrorCode::Einval,
                    "Truncate operation should not include content"@,
                )
            } else {
                decision matches WriteDecision::Truncate { path, size: s } && path@ == file && s
                    == size
            },
            Ok(ContentRange::Span { start, end, total }) => {
                let expected = range::span_length(start, end, total);
                if len != expected {
                    decision matches WriteDecision::Refused(reply) && reply@
                        == span_mismatch_answer(expected, len, start, end, total)
                } else {
                    decision matches WriteDecision::Write { path, offset } && path@ == file
                        && offset == start
                }
            },
        },
    }
}

/// The path of the directory that a request for a listing is about.
pub fn list_directory(path: Option<&str>) -> (dir: String)
    ensures
        dir@ == dir_named(
            match path {
                Some(path) => Some(path@),
                None => None,
            },
        ),
{
    let mut dir: String = "/dir/".to_owned();
    match path {
        Some(path) => {
            dir.append(server::decode_part(path).as_str());
        },
        None => {},
    }
    dir
}

/// The path of the file for the part of a URL below `/file/`.
fn file_path(path: &str) -> (file: String)
    ensures
        file@ == file_named(path@),
{
    let mut file: String = "/file/".to_owned();
    file.append(server::decode_part(path).as_str());
    file
}

/// Starts a read: finds the file and the range that the request is about.
pub fn read_file(path: &str, headers: &http::HeaderMap) -> (request: server::ReadRequest)
    ensures
        request.path@ == file_named(path@),
        request.range == server::requested_range(*headers),
{
    server::ReadRequest { path: file_path(path), range: server::range_request(headers) }
}

/// Decides on a write whose body has `len` bytes and of which `Content-Range` says `value`, for
/// the file at `file`.
pub fn decide_write(file: String, value: Option<&str>, len: usize) -> (decision: WriteDecision)
    ensures
        decided(
            decision,
            file@,
            match value {
                Some(value) => Some(value@),
                None => None,
            },
            len as nat,
        ),
{
    let value: &str = match value {
        Some(value) => value,
        None => {
            return WriteDecision::Write { path: file, offset: 0 };
        },
    };
    match range::parse_content_range_value(value) {
        Err(message) => WriteDecision::Refused(
            error::error_reply(ErrorCode::Einval, message.as_str(), None, None),
        ),
        Ok(ContentRange::Truncate { size }) => {
            if len > 0 {
                WriteDecision::Refused(
                    error::error_reply(
                        ErrorCode::Einval,
                        "Truncate operation should not include content",
                        None,
                        None,
                    ),
                )
            } else {
                WriteDecision::Truncate { path: file, size }
            }
        },
        Ok(ContentRange::Span { start, end, total }) => {
            let expected: u64 = if total == 0 || end < start {
                0
            } else {
                end - start + 1
            };
            if len as u64 != expected {
                let mut message: String = "Content length mismatch: expected ".to_owned();
                message.append(text::decimal_text(expected).as_str());
                message.append(" bytes but got ");
                message.append(text::decimal_text(len as u64).as_str());
                message.append(" (range: ");
                message.append(text::decimal_text(start).as_str());
                message.append("-");
                message.append(text::decimal_text(end).as_str());
                message.append("/");
                message.append(text::decimal_text(total).as_str());
                message.append(")");
                WriteDecision::Refused(
                    error::error_reply(ErrorCode::Einval, message.as_str(), None, None),
                )
            } else {
                WriteDecision::Write { path: file, offset: start }
            }
        },
    }
}

/// `decision` is what is to be done for a change of a file whose body has `len` bytes: a move where
/// the request names a goal, and else what `Content-Range` says.
pub open spec fn change_decided(
    decision: WriteDecision,
    path: Seq<char>,
    headers: http::HeaderMap,
    len: nat,
) -> bool {
    match server::requested_destination(headers) {
        Some(Some(meant)) => decision matches WriteDecision::Rename { from, to } && from@
            == file_named(path) && to@ == meant,
        Some(None) => decision matches WriteDecision::Refused(reply) && reply@
            == server::bad_destination_answer(),
        None => decided(
            decision,
            file_named(path),
            range::header_value(headers, "Content-Range"@),
            len,
        ),
    }
}

/// Decides on a change of a file whose body has `len` bytes: whether the file is to be moved, cut
/// or written.
pub fn write_file(path: &str, headers: &http::HeaderMap, len: usize) -> (decision: WriteDecision)
    ensures
        change_decided(decision, path@, *headers, len as nat),
{
    match server::destination_request(headers) {
        Some(Some(to)) => {
            return WriteDecision::Rename { from: file_path(path), to };
        },
        Some(None) => {
            return WriteDecision::Refused(server::bad_destination_reply());
        },
        None => {},
    }
    match range::header_str(headers, "Content-Range") {
        Some(value) => decide_write(file_path(path), Some(value.as_str()), len),
        None => decide_write(file_path(path), None, len),
    }
}

} // verus!
