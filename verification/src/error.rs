//! What can go wrong with a file, and the answer to a request that cannot be served.

use crate::json;
use crate::json::Json;
use vstd::prelude::*;

verus! {

/// The error codes of the protocol.
#[derive(Clone, Copy, Debug, PartialEq, Eq, Structural)]
pub enum ErrorCode {
    /// Path not found.
    Enoent,
    /// Permission denied.
    Eacces,
    /// Path already exists.
    Eexist,
    /// Directory not empty.
    Enotempty,
    /// No space left.
    Enospc,
    /// Invalid arguments.
    Einval,
    /// Anything else.
    Eio,
}

impl ErrorCode {
    /// The HTTP status that answers such an error.
    pub open spec fn http_status(self) -> u16 {
        match self {
            ErrorCode::Enoent => 404,
            ErrorCode::Eacces => 403,
            ErrorCode::Eexist => 409,
            ErrorCode::Enotempty => 409,
            ErrorCode::Enospc => 507,
            ErrorCode::Einval => 400,
            ErrorCode::Eio => 500,
        }
    }

    /// The name of the code.
    pub open spec fn name_text(self) -> Seq<char> {
        match self {
            ErrorCode::Enoent => "ENOENT"@,
            ErrorCode::Eacces => "EACCES"@,
            ErrorCode::Eexist => "EEXIST"@,
            ErrorCode::Enotempty => "ENOTEMPTY"@,
            ErrorCode::Enospc => "ENOSPC"@,
            ErrorCode::Einval => "EINVAL"@,
            ErrorCode::Eio => "EIO"@,
        }
    }

    /// The code for an error number of the operating system (the numbers of Linux).
    pub open spec fn for_errno(errno: i32) -> ErrorCode {
        if errno == 2 || errno == 20 || errno == 21 {
            ErrorCode::Enoent
        } else if errno == 1 || errno == 13 {
            ErrorCode::Eacces
        } else if errno == 17 {
            ErrorCode::Eexist
        } else if errno == 39 {
            ErrorCode::Enotempty
        } else if errno == 28 {
            ErrorCode::Enospc
        } else if errno == 22 {
            ErrorCode::Einval
        } else {
            ErrorCode::Eio
        }
    }

    /// The code for an error number of the operating system. What is no directory or no file where
    /// one is wanted (`ENOTDIR`, `EISDIR`) counts as not found, `EPERM` as a denied permission, and
    /// a number that the protocol does not know as any other error.
    pub fn of_errno(errno: i32) -> (code: ErrorCode)
        ensures
            code == ErrorCode::for_errno(errno),
    {
        match errno {
            1 | 13 => ErrorCode::Eacces,
            2 | 20 | 21 => ErrorCode::Enoent,
            17 => ErrorCode::Eexist,
            22 => ErrorCode::Einval,
            28 => ErrorCode::Enospc,
            39 => ErrorCode::Enotempty,
            _ => ErrorCode::Eio,
        }
    }

    /// The HTTP status that answers such an error.
    pub fn status(self) -> (status: u16)
        ensures
            status == self.http_status(),
    {
        match self {
            ErrorCode::Enoent => 404,
            ErrorCode::Eacces => 403,
            ErrorCode::Eexist => 409,
            ErrorCode::Enotempty => 409,
            ErrorCode::Enospc => 507,
            ErrorCode::Einval => 400,
            ErrorCode::Eio => 500,
        }
    }

    /// The name of the code.
    pub fn name(self) -> (name: &'static str)
        ensures
            name@ == self.name_text(),
    {
        match self {
            ErrorCode::Enoent => "ENOENT",
            ErrorCode::Eacces => "EACCES",
            ErrorCode::Eexist => "EEXIST",
            ErrorCode::Enotempty => "ENOTEMPTY",
            ErrorCode::Enospc => "ENOSPC",
            ErrorCode::Einval => "EINVAL",
            ErrorCode::Eio => "EIO",
        }
    }
}

/// An operation on a file or a directory failed.
#[derive(Debug)]
pub struct FsError {
    pub code: ErrorCode,
    pub message: String,
}

/// What a server answers: the status, the header fields in order, and a text.
#[derive(Debug)]
pub struct Reply {
    pub status: u16,
    pub headers: Vec<(String, String)>,
    pub body: String,
}

/// What a [`Reply`] says.
pub struct ReplyView {
    pub status: u16,
    pub headers: Seq<(Seq<char>, Seq<char>)>,
    pub body: Seq<char>,
}

/// The names and values of header fields.
pub open spec fn header_texts(headers: Seq<(String, String)>) -> Seq<(Seq<char>, Seq<char>)> {
    headers.map_values(|field: (String, String)| (field.0@, field.1@))
}

impl View for Reply {
    type V = ReplyView;

    open spec fn view(&self) -> ReplyView {
        ReplyView { status: self.status, headers: header_texts(self.headers@), body: self.body@ }
    }
}

/// The members of the object that describes an error: `debug` is what a developer may want to
/// know beyond the message, and `path` the path of a request that nothing serves.
pub open spec fn error_members(
    code: ErrorCode,
    message: Seq<char>,
    debug: Option<Seq<char>>,
    path: Option<Seq<char>>,
) -> Seq<(Seq<char>, json::JsonValue)> {
    let details: Seq<(Seq<char>, Seq<char>)> = match debug {
        Some(debug) => seq![("debug"@, debug)],
        None => Seq::empty(),
    };
    let members = seq![
        ("status"@, json::JsonValue::Text("error"@)),
        ("error"@, json::JsonValue::Text(message)),
        ("code"@, json::JsonValue::Text(code.name_text())),
        ("details"@, json::JsonValue::Object(details)),
    ];
    match path {
        Some(path) => members.push(("path"@, json::JsonValue::Text(path))),
        None => members,
    }
}

/// The answer to a request that ends in an error: the status of the code, and a JSON object that
/// describes the error.
pub open spec fn error_answer(
    code: ErrorCode,
    message: Seq<char>,
    debug: Option<Seq<char>>,
    path: Option<Seq<char>>,
) -> ReplyView {
    ReplyView {
        status: code.http_status(),
        headers: seq![("content-type"@, "application/json"@)],
        body: json::object_text(error_members(code, message, debug, path)),
    }
}

/// The text of the object that describes an error.
fn error_body(code: ErrorCode, message: &str, debug: Option<&str>, path: Option<&str>) -> (body:
    String)
    ensures
        body@ == json::object_text(
            error_members(
                code,
                message@,
                match debug {
                    Some(debug) => Some(debug@),
                    None => None,
                },
                match path {
                    Some(path) => Some(path@),
                    None => None,
                },
            ),
        ),
{
    let ghost debug_text: Option<Seq<char>> = match debug {
        Some(debug) => Some(debug@),
        None => None,
    };
    let ghost path_text: Option<Seq<char>> = match path {
        Some(path) => Some(path@),
        None => None,
    };
    let mut details: Vec<(String, String)> = Vec::new();
    match debug {
        Some(debug) => {
            details.push(("debug".to_owned(), debug.to_owned()));
        },
        None => {},
    }
    proof {
        let expected: Seq<(Seq<char>, Seq<char>)> = match debug_text {
            Some(debug) => seq![("debug"@, debug)],
            None => Seq::empty(),
        };
        assert(json::member_texts(details@) =~= expected);
    }
    let mut members: Vec<(String, Json)> = Vec::new();
    members.push(("status".to_owned(), Json::Text("error".to_owned())));
    members.push(("error".to_owned(), Json::Text(message.to_owned())));
    members.push(("code".to_owned(), Json::Text(code.name().to_owned())));
    members.push(("details".to_owned(), Json::Object(details)));
    match path {
        Some(path) => {
            members.push(("path".to_owned(), Json::Text(path.to_owned())));
        },
        None => {},
    }
    proof {
        assert(json::members_of(members@) =~= error_members(
            code,
            message@,
            debug_text,
            path_text,
        ));
    }
    json::object_string(&members)
}

/// Answers a request with an error.
pub fn error_reply(
    code: ErrorCode,
    message: &str,
    debug: Option<&str>,
    path: Option<&str>,
) -> (reply: Reply)
    ensures
        reply@ == error_answer(
            code,
            message@,
            match debug {
                Some(debug) => Some(debug@),
                None => None,
            },
            match path {
                Some(path) => Some(path@),
                None => None,
            },
        ),
{
    let mut headers: Vec<(String, String)> = Vec::new();
    headers.push(("content-type".to_owned(), "application/json".to_owned()));
    let body: String = error_body(code, message, debug, path);
    let reply = Reply { status: code.status(), headers, body };
    proof {
        assert(reply@.headers =~= seq![("content-type"@, "application/json"@)]);
    }
    reply
}

/// The answer to an operation on a file that failed.
pub open spec fn failure_answer(code: ErrorCode, message: Seq<char>) -> ReplyView {
    error_answer(code, message, None, None)
}

/// Answers a request whose operation on a file failed.
pub fn failure_reply(error: &FsError) -> (reply: Reply)
    ensures
        reply@ == failure_answer(error.code, error.message@),
{
    error_reply(error.code, error.message.as_str(), None, None)
}

/// The members that describe an error have plain names, each its own.
pub proof fn error_members_are_well_named(
    code: ErrorCode,
    message: Seq<char>,
    debug: Option<Seq<char>>,
    path: Option<Seq<char>>,
)
    ensures
        json::well_named(error_members(code, message, debug, path)),
{
    reveal_strlit("status");
    reveal_strlit("error");
    reveal_strlit("code");
    reveal_strlit("details");
    reveal_strlit("debug");
    reveal_strlit("path");
    let members = error_members(code, message, debug, path);
    assert forall|i: int, j: int| 0 <= i < j < members.len() implies (#[trigger] members[i]).0 != (
    #[trigger] members[j]).0 by {
        assert("status"@.len() == 6 && "error"@.len() == 5 && "code"@.len() == 4
            && "details"@.len() == 7 && "path"@.len() == 4);
        assert("code"@[0] == 'c' && "path"@[0] == 'p');
    }
}

} // verus!
