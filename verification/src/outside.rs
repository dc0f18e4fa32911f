//! What the library has from other crates and from parts of the standard library that the
//! verifier does not know. The contracts here are believed, not proved.

use crate::encoding;
use crate::json;
use vstd::prelude::*;

verus! {

/// The header fields of a request or a response.
#[verifier::external_type_specification]
#[verifier::external_body]
#[verifier::reject_recursive_types(T)]
pub struct ExHeaderMap<T>(http::HeaderMap<T>);

/// The value of one header field.
#[verifier::external_type_specification]
#[verifier::external_body]
pub struct ExHeaderValue(http::HeaderValue);

/// Why a text is no URI.
#[verifier::external_type_specification]
#[verifier::external_body]
pub struct ExInvalidUri(http::uri::InvalidUri);

/// Why bytes are no JSON value.
#[verifier::external_type_specification]
#[verifier::external_body]
pub struct ExJsonError(serde_json::Error);

/// What a header map holds: for each field name, in lower case, the first value of that field.
pub uninterp spec fn header_fields(headers: http::HeaderMap) -> Map<Seq<char>, Seq<u8>>;

/// `c` in lower case, if it is an ASCII letter.
pub open spec fn ascii_lower(c: char) -> char {
    if 'A' <= c <= 'Z' {
        ((c as u32 + 32) as u32) as char
    } else {
        c
    }
}

/// `s` with its ASCII letters in lower case.
pub open spec fn lower_case(s: Seq<char>) -> Seq<char> {
    s.map_values(|c: char| ascii_lower(c))
}

/// Calls `http::HeaderMap::get`, which finds the first value of the field of that name, in
/// whichever case the name is written.
#[verifier::external_body]
pub(crate) fn header_field(headers: &http::HeaderMap, name: &str) -> (value: Option<Vec<u8>>)
    ensures
        match value {
            Some(value) => header_fields(*headers).contains_key(lower_case(name@)) && value@
                == header_fields(*headers)[lower_case(name@)],
            None => !header_fields(*headers).contains_key(lower_case(name@)),
        },
{
    headers.get(name).map(|value| value.as_bytes().to_vec())
}

/// The bytes that a header value may hold to be a text: those of printable ASCII, and the tab.
pub open spec fn is_visible_ascii(b: u8) -> bool {
    32 <= b < 127 || b == 9
}

/// The text that a header value is, if it is one.
pub open spec fn header_text_of(value: Seq<u8>) -> Option<Seq<char>> {
    if forall|i: int| 0 <= i < value.len() ==> is_visible_ascii(#[trigger] value[i]) {
        Some(value.map_values(|b: u8| b as char))
    } else {
        None
    }
}

/// Calls `http::HeaderValue::to_str`, which gives the value as a text if all its bytes are
/// printable ASCII or tabs, and no text otherwise.
#[verifier::external_body]
pub(crate) fn header_text(value: &[u8]) -> (text: Option<String>)
    ensures
        match text {
            Some(text) => header_text_of(value@) == Some(text@),
            None => header_text_of(value@) is None,
        },
{
    let value = http::HeaderValue::from_bytes(value).ok()?;
    value.to_str().ok().map(|text| text.to_owned())
}

/// Calls `urlencoding::decode`, which replaces each `%` and two hexadecimal digits by the byte
/// that they write, leaves anything else as it is, and gives no text if the bytes are then not
/// UTF-8.
#[verifier::external_body]
pub(crate) fn percent_decode(text: &str) -> (decoded: Option<String>)
    ensures
        match decoded {
            Some(decoded) => encoding::percent_decoded(text@) == Some(decoded@),
            None => encoding::percent_decoded(text@) is None,
        },
{
    urlencoding::decode(text).ok().map(|decoded| decoded.into_owned())
}

/// Calls `urlencoding::encode`, which writes every byte but those of letters, digits, `-`, `.`,
/// `_` and `~` as `%` and two hexadecimal digits.
#[verifier::external_body]
pub(crate) fn percent_encode(text: &str) -> (encoded: String)
    ensures
        encoded@ == encoding::percent_encoded(text@),
{
    urlencoding::encode(text).into_owned()
}

/// Calls `serde_json::Value::to_string` on a string value, which writes it in quotes and escapes
/// quotes, backslashes and control characters.
#[verifier::external_body]
pub(crate) fn json_quote(text: &str) -> (quoted: String)
    ensures
        quoted@ == encoding::json_string(text@),
{
    serde_json::Value::String(text.to_owned()).to_string()
}

/// The text that stands under a name in the JSON object that bytes write: `None` if the bytes are
/// no JSON value, `Some(None)` if it is no object or holds no text under that name.
pub uninterp spec fn json_text_under(bytes: Seq<u8>, name: Seq<char>) -> Option<Option<Seq<char>>>;

/// Calls `serde_json::from_slice`, and on the value `serde_json::Value::get` and
/// `serde_json::Value::as_str`. In particular it gives back the texts of an object with
/// plain and distinct names that was written with quoted names and texts.
#[verifier::external_body]
pub(crate) fn json_read_text(bytes: &[u8], name: &str) -> (text: Result<
    Option<String>,
    serde_json::Error,
>)
    ensures
        match text {
            Ok(Some(text)) => json_text_under(bytes@, name@) == Some(Some(text@)),
            Ok(None) => json_text_under(bytes@, name@) == Some(None::<Seq<char>>),
            Err(_) => json_text_under(bytes@, name@) is None,
        },
        forall|members: Seq<(Seq<char>, json::JsonValue)>, i: int|
            #![trigger json::object_text(members), members[i]]
            bytes@ == vstd::utf8::encode_utf8(json::object_text(members)) && json::well_named(
                members,
            ) && 0 <= i < members.len() && members[i].0 == name@ ==> match members[i].1 {
                json::JsonValue::Text(t) => text matches Ok(Some(text)) && text@ == t,
                _ => text matches Ok(None),
            },
{
    let value: serde_json::Value = serde_json::from_slice(bytes)?;
    Ok(value.get(name).and_then(|member| member.as_str()).map(|text| text.to_owned()))
}

/// The host and the port that a URI names, where the text is a URI and names them.
pub uninterp spec fn uri_authority(text: Seq<char>) -> Option<(Option<Seq<char>>, Option<u16>)>;

/// Calls `str::parse::<http::Uri>`, and on the URI `http::Uri::host` and `http::Uri::port_u16`.
#[verifier::external_body]
pub(crate) fn parse_authority(text: &str) -> (authority: Result<
    (Option<String>, Option<u16>),
    http::uri::InvalidUri,
>)
    ensures
        match authority {
            Ok((Some(host), port)) => uri_authority(text@) == Some((Some(host@), port)),
            Ok((None, port)) => uri_authority(text@) == Some((None::<Seq<char>>, port)),
            Err(_) => uri_authority(text@) is None,
        },
{
    let uri = text.parse::<http::Uri>()?;
    Ok((uri.host().map(|host| host.to_owned()), uri.port_u16()))
}

/// A name that a directory can hold: not empty, without a slash, and neither `.` nor `..`.
pub open spec fn is_file_name(name: Seq<char>) -> bool {
    &&& name.len() > 0
    &&& !name.contains('/')
    &&& name != seq!['.']
    &&& name != seq!['.', '.']
}

/// What `std::path::Path::parent` gives for a path, on Unix.
pub uninterp spec fn path_parent_of(path: Seq<char>) -> Option<Seq<char>>;

/// Calls `std::path::Path::parent`: the path without its last component. The parent of a file
/// that stands directly under the root is the root.
#[verifier::external_body]
pub(crate) fn path_parent(path: &str) -> (parent: Option<String>)
    ensures
        match parent {
            Some(parent) => path_parent_of(path@) == Some(parent@),
            None => path_parent_of(path@) is None,
        },
        path@.len() > 0 && path@[0] == '/' && is_file_name(path@.skip(1)) ==> (parent matches Some(
            parent,
        ) && parent@ == seq!['/']),
{
    std::path::Path::new(path).parent().map(|parent| parent.to_string_lossy().into_owned())
}

/// What `std::path::Path::file_name` gives for a path, on Unix.
pub uninterp spec fn path_file_name_of(path: Seq<char>) -> Option<Seq<char>>;

/// Calls `std::path::Path::file_name`: the last component of the path, if it is a name.
#[verifier::external_body]
pub(crate) fn path_file_name(path: &str) -> (name: Option<String>)
    ensures
        match name {
            Some(name) => path_file_name_of(path@) == Some(name@),
            None => path_file_name_of(path@) is None,
        },
        path@.len() > 0 && path@[0] == '/' && is_file_name(path@.skip(1)) ==> (name matches Some(
            name,
        ) && name@ == path@.skip(1)),
{
    std::path::Path::new(path).file_name().map(|name| name.to_string_lossy().into_owned())
}

/// A path in quotes, as an error message shows it, on Unix.
pub uninterp spec fn path_shown(path: Seq<char>) -> Seq<char>;

/// Formats a `std::path::Path` by its `Debug` implementation.
#[verifier::external_body]
pub(crate) fn show_path(path: &str) -> (shown: String)
    ensures
        shown@ == path_shown(path@),
{
    format!("{:?}", std::path::Path::new(path))
}

} // verus!
