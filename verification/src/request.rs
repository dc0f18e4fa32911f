//! The client side of the protocol: the requests that it sends, and what it makes of the answers.

use crate::encoding;
use crate::error;
use crate::error::ErrorCode;
use crate::http as server;
use crate::json;
use crate::outside;
use crate::range;
use crate::text;
use vstd::prelude::*;

verus! {

/// Why a request could not be made, or was not served.
#[derive(Debug)]
pub enum ClientError {
    /// The address of the server is no URI.
    InvalidServerUrl,
    /// The server answered with an error, but did not describe it.
    InvalidErrorBody,
    /// The server answered with an error; this is the message.
    Server(String),
}

/// A request: the method, the path and the header fields in order.
#[derive(Debug)]
pub struct Request {
    pub method: String,
    pub path: String,
    pub headers: Vec<(String, String)>,
}

/// What a [`Request`] says.
pub struct RequestView {
    pub method: Seq<char>,
    pub path: Seq<char>,
    pub headers: Seq<(Seq<char>, Seq<char>)>,
}

impl View for Request {
    type V = RequestView;

    open spec fn view(&self) -> RequestView {
        RequestView {
            method: self.method@,
            path: self.path@,
            headers: error::header_texts(self.headers@),
        }
    }
}

/// The host and the port that a URI names, or those that stand for them where it does not.
pub open spec fn address_of(host: Option<Seq<char>>, port: Option<u16>) -> (Seq<char>, u16) {
    (
        match host {
            Some(host) => host,
            None => "localhost"@,
        },
        match port {
            Some(port) => port,
            None => 4433,
        },
    )
}

/// The host and the port of the server, if its address is a URI.
pub open spec fn server_of(url: Seq<char>) -> Option<(Seq<char>, u16)> {
    match outside::uri_authority(url) {
        Some((host, port)) => Some(address_of(host, port)),
        None => None,
    }
}

/// The host and the port as the field `host` and a socket address write them.
pub open spec fn host_and_port(server: (Seq<char>, u16)) -> Seq<char> {
    server.0 + seq![':'] + text::decimal(server.1 as nat)
}

/// The path of a request on the file at `path`.
pub open spec fn file_url(path: Seq<char>) -> Seq<char> {
    "/file/"@ + text::trim_prefixes(path, "/"@)
}

/// The request to write `len` bytes to the file at `path`, at `offset`.
pub open spec fn write_request_of(
    server: (Seq<char>, u16),
    path: Seq<char>,
    offset: u64,
    len: nat,
) -> RequestView {
    RequestView {
        method: "PATCH"@,
        path: file_url(path),
        headers: seq![
            ("host"@, host_and_port(server)),
            ("Content-Range"@, range::write_range_text(offset, len)),
        ],
    }
}

/// The request to read `size` bytes of the file at `path`, from `offset` on.
pub open spec fn read_request_of(
    server: (Seq<char>, u16),
    path: Seq<char>,
    offset: u64,
    size: nat,
) -> RequestView {
    RequestView {
        method: "GET"@,
        path: file_url(path),
        headers: seq![
            ("host"@, host_and_port(server)),
            ("Range"@, range::range_text(offset, size)),
        ],
    }
}

/// The request to list the directory at `path`.
pub open spec fn list_request_of(server: (Seq<char>, u16), path: Seq<char>) -> RequestView {
    RequestView {
        method: "GET"@,
        path: "/dir"@ + path,
        headers: seq![("host"@, host_and_port(server))],
    }
}

/// The request to give the file at `path` the size `size`.
pub open spec fn truncate_request_of(
    server: (Seq<char>, u16),
    path: Seq<char>,
    size: u64,
) -> RequestView {
    RequestView {
        method: "PATCH"@,
        path: "/file"@ + path,
        headers: seq![
            ("host"@, host_and_port(server)),
            ("Content-Length"@, "0"@),
            ("Content-Range"@, range::truncate_range_text(size)),
        ],
    }
}

/// The status says that the request was served.
pub open spec fn is_success(status: u16) -> bool {
    200 <= status < 300
}

/// The message for an error whose description holds `text` under `error`.
pub open spec fn server_message(text: Option<Seq<char>>) -> Seq<char> {
    "Server error: "@ + match text {
        Some(text) => text,
        None => "Unknown error"@,
    }
}

/// `error` is what a client makes of an answer with that status and that body.
pub open spec fn answered(error: Option<ClientError>, status: u16, body: Seq<u8>) -> bool {
    if is_success(status) {
        error is None
    } else {
        match outside::json_text_under(body, "error"@) {
            None => error matches Some(ClientError::InvalidErrorBody),
            Some(text) => error matches Some(ClientError::Server(message)) && message@
                == server_message(text),
        }
    }
}

/// The host and the port of a server whose address names these, or does not.
pub fn server_address(host: Option<String>, port: Option<u16>) -> (server: (String, u16))
    ensures
        (server.0@, server.1) == address_of(
            match host {
                Some(host) => Some(host@),
                None => None,
            },
            port,
        ),
{
    (
        match host {
            Some(host) => host,
            None => "localhost".to_owned(),
        },
        match port {
            Some(port) => port,
            None => 4433,
        },
    )
}

/// The host and the port of the server at `url`.
pub fn server_endpoint(url: &str) -> (server: Result<(String, u16), ClientError>)
    ensures
        match server {
            Ok((host, port)) => server_of(url@) == Some((host@, port)),
            Err(error) => server_of(url@) is None && error is InvalidServerUrl,
        },
{
    match outside::parse_authority(url) {
        Ok((host, port)) => Ok(server_address(host, port)),
        Err(_) => Err(ClientError::InvalidServerUrl),
    }
}

/// The host and the port as the field `host` and a socket address write them.
pub fn host_text(host: &str, port: u16) -> (value: String)
    ensures
        value@ == host_and_port((host@, port)),
{
    proof {
        reveal_strlit(":");
        assert(":"@ =~= seq![':']);
    }
    let mut value: String = host.to_owned();
    value.append(":");
    value.append(text::decimal_text(port as u64).as_str());
    value
}

/// The request to write `len` bytes to a file, for a server with that host and port.
pub fn build_write_request(host: &str, port: u16, path: &str, offset: u64, len: usize) -> (request:
    Request)
    requires
        offset + len <= u64::MAX,
    ensures
        request@ == write_request_of((host@, port), path@, offset, len as nat),
{
    let mut url: String = "/file/".to_owned();
    url.append(text::trim_start(path, "/"));
    let last: u64 = if len == 0 {
        offset
    } else {
        offset + (len as u64 - 1)
    };
    let mut headers: Vec<(String, String)> = Vec::new();
    headers.push(("host".to_owned(), host_text(host, port)));
    headers.push(
        ("Content-Range".to_owned(), range::write_content_range(offset, last, offset + len as u64)),
    );
    let request = Request { method: "PATCH".to_owned(), path: url, headers };
    proof {
        assert(request@.headers =~= write_request_of(
            (host@, port),
            path@,
            offset,
            len as nat,
        ).headers);
    }
    request
}

/// The request to read `size` bytes of a file, for a server with that host and port.
pub fn build_read_request(host: &str, port: u16, path: &str, offset: u64, size: u32) -> (request:
    Request)
    requires
        1 <= offset + size <= u64::MAX,
    ensures
        request@ == read_request_of((host@, port), path@, offset, size as nat),
{
    let mut url: String = "/file/".to_owned();
    url.append(text::trim_start(path, "/"));
    let mut headers: Vec<(String, String)> = Vec::new();
    headers.push(("host".to_owned(), host_text(host, port)));
    headers.push(("Range".to_owned(), range::write_range(offset, size)));
    let request = Request { method: "GET".to_owned(), path: url, headers };
    proof {
        assert(request@.headers =~= read_request_of(
            (host@, port),
            path@,
            offset,
            size as nat,
        ).headers);
    }
    request
}

/// The request to list a directory, for a server with that host and port.
pub fn build_list_request(host: &str, port: u16, path: &str) -> (request: Request)
    ensures
        request@ == list_request_of((host@, port), path@),
{
    let mut url: String = "/dir".to_owned();
    url.append(path);
    let mut headers: Vec<(String, String)> = Vec::new();
    headers.push(("host".to_owned(), host_text(host, port)));
    let request = Request { method: "GET".to_owned(), path: url, headers };
    proof {
        assert(request@.headers =~= list_request_of((host@, port), path@).headers);
    }
    request
}

/// The request to give a file a new size, for a server with that host and port.
pub fn build_truncate_request(host: &str, port: u16, path: &str, size: u64) -> (request: Request)
    ensures
        request@ == truncate_request_of((host@, port), path@, size),
{
    let mut url: String = "/file".to_owned();
    url.append(path);
    let mut headers: Vec<(String, String)> = Vec::new();
    headers.push(("host".to_owned(), host_text(host, port)));
    headers.push(("Content-Length".to_owned(), "0".to_owned()));
    headers.push(("Content-Range".to_owned(), range::write_truncate_range(size)));
    let request = Request { method: "PATCH".to_owned(), path: url, headers };
    proof {
        assert(request@.headers =~= truncate_request_of((host@, port), path@, size).headers);
    }
    request
}

/// The request to write `len` bytes to the file at `path`, at `offset`.
pub fn write_file(url: &str, path: &str, offset: u64, len: usize) -> (request: Result<
    Request,
    ClientError,
>)
    requires
        offset + len <= u64::MAX,
    ensures
        match server_of(url@) {
            Some(server) => request matches Ok(request) && request@ == write_request_of(
                server,
                path@,
                offset,
                len as nat,
            ),
            None => request matches Err(ClientError::InvalidServerUrl),
        },
{
    match server_endpoint(url) {
        Ok((host, port)) => Ok(build_write_request(host.as_str(), port, path, offset, len)),
        Err(_) => Err(ClientError::InvalidServerUrl),
    }
}

/// The request to read `size` bytes of the file at `path`, from `offset` on.
pub fn read_file(url: &str, path: &str, offset: u64, size: u32) -> (request: Result<
    Request,
    ClientError,
>)
    requires
        1 <= offset + size <= u64::MAX,
    ensures
        match server_of(url@) {
            Some(server) => request matches Ok(request) && request@ == read_request_of(
                server,
                path@,
                offset,
                size as nat,
            ),
            None => request matches Err(ClientError::InvalidServerUrl),
        },
{
    match server_endpoint(url) {
        Ok((host, port)) => Ok(build_read_request(host.as_str(), port, path, offset, size)),
        Err(_) => Err(ClientError::InvalidServerUrl),
    }
}

/// The request to list the directory at `path`.
pub fn list_directory(url: &str, path: &str) -> (request: Result<Request, ClientError>)
    ensures
        match server_of(url@) {
            Some(server) => request matches Ok(request) && request@ == list_request_of(
                server,
                path@,
            ),
            None => request matches Err(ClientError::InvalidServerUrl),
        },
{
    match server_endpoint(url) {
        Ok((host, port)) => Ok(build_list_request(host.as_str(), port, path)),
        Err(_) => Err(ClientError::InvalidServerUrl),
    }
}

/// The request to give the file at `path` the size `size`.
pub fn truncate_file(url: &str, path: &str, size: u64) -> (request: Result<Request, ClientError>)
    ensures
        match server_of(url@) {
            Some(server) => request matches Ok(request) && request@ == truncate_request_of(
                server,
                path@,
                size,
            ),
            None => request matches Err(ClientError::InvalidServerUrl),
        },
{
    match server_endpoint(url) {
        Ok((host, port)) => Ok(build_truncate_request(host.as_str(), port, path, size)),
        Err(_) => Err(ClientError::InvalidServerUrl),
    }
}

/// The request to make an empty file called `name`. The server takes it to be about the file of
/// just that name, whatever characters it holds.
pub fn create_file(url: &str, name: &str) -> (request: Result<Request, ClientError>)
    ensures
        match server_of(url@) {
            Some(server) => request matches Ok(request) && request@ == write_request_of(
                server,
                encoding::percent_encoded(name@),
                0,
                0,
            ) && server::requested_file(request.path@) == "/file/"@ + name@,
            None => request matches Err(ClientError::InvalidServerUrl),
        },
{
    let encoded: String = outside::percent_encode(name);
    proof {
        let path = encoded@;
        reveal_strlit("/");
        encoding::encoded_text_reads_back(name@);
        if path.len() > 0 {
            assert(path[0] != '/');
            assert("/"@.is_prefix_of(path) ==> path.subrange(0, 1)[0] == '/');
        }
        assert(text::trim_prefixes(path, "/"@) == path);
        url_names_file(path);
    }
    write_file(url, encoded.as_str(), 0, 0)
}

/// The server takes a request on the file at `path`, which the client sends without encoding, to
/// be about that path below `/file/`, decoded.
pub proof fn url_names_file(path: Seq<char>)
    ensures
        server::requested_file(file_url(path)) == "/file/"@ + server::decoded(
            text::trim_prefixes(path, "/"@),
        ),
{
    let below = text::trim_prefixes(path, "/"@);
    let url = "/file/"@ + below;
    assert(url.subrange(0, "/file/"@.len() as int) =~= "/file/"@);
    assert(url.skip("/file/"@.len() as int) =~= below);
}

/// Whether a status says that the request was served.
pub fn served(status: u16) -> (success: bool)
    ensures
        success == is_success(status),
{
    200 <= status && status < 300
}

/// The error for an answer whose description holds `text` under `error`.
pub fn server_error(text: Option<String>) -> (error: ClientError)
    ensures
        error matches ClientError::Server(message) && message@ == server_message(
            match text {
                Some(text) => Some(text@),
                None => None,
            },
        ),
{
    let mut message: String = "Server error: ".to_owned();
    match text {
        Some(text) => {
            message.append(text.as_str());
        },
        None => {
            message.append("Unknown error");
        },
    }
    ClientError::Server(message)
}

/// What a client makes of an answer: nothing if the request was served, and otherwise the error.
/// Of an answer that this server gives to a request that it refuses, the client reads the message.
pub fn answer_error(status: u16, body: &[u8]) -> (error: Option<ClientError>)
    ensures
        answered(error, status, body@),
        forall|code: ErrorCode, message: Seq<char>, debug: Option<Seq<char>>, path: Option<Seq<char>>|
            #![trigger error::error_answer(code, message, debug, path)]
            !is_success(status) && body@ == vstd::utf8::encode_utf8(
                error::error_answer(code, message, debug, path).body,
            ) ==> (error matches Some(ClientError::Server(text)) && text@ == "Server error: "@
                + message),
{
    if served(status) {
        return None;
    }
    let read = outside::json_read_text(body, "error");
    proof {
        assert forall|
            code: ErrorCode,
            message: Seq<char>,
            debug: Option<Seq<char>>,
            path: Option<Seq<char>>,
        |
            #![trigger error::error_answer(code, message, debug, path)]
            body@ == vstd::utf8::encode_utf8(
                error::error_answer(code, message, debug, path).body,
            ) implies read matches Ok(Some(text)) && text@ == message by {
            let members = error::error_members(code, message, debug, path);
            error::error_members_are_well_named(code, message, debug, path);
            assert(members[1] == ("error"@, json::JsonValue::Text(message)));
            assert(body@ == vstd::utf8::encode_utf8(json::object_text(members)));
        }
    }
    match read {
        Ok(text) => Some(server_error(text)),
        Err(_) => Some(ClientError::InvalidErrorBody),
    }
}

} // verus!
