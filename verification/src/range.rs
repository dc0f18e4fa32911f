//! The header fields `Range` and `Content-Range`: which bytes of a file a request is about.

use crate::outside;
use crate::text;
use vstd::prelude::*;

verus! {

/// The bytes that a read asks for: from `start` on, up to and with `end` or the end of the file.
#[derive(Clone, Copy, Debug, PartialEq, Eq, Structural)]
pub struct ByteRange {
    pub start: u64,
    pub end: Option<u64>,
}

/// What `Range` asks for.
#[derive(Clone, Copy, Debug, PartialEq, Eq, Structural)]
pub enum RequestedRange {
    /// No range, but the whole file.
    Whole,
    /// A range whose start or end is no number.
    Invalid,
    Bytes(ByteRange),
}

/// What `Content-Range` says of a write.
#[derive(Clone, Copy, Debug, PartialEq, Eq, Structural)]
pub enum ContentRange {
    /// The file gets this size.
    Truncate { size: u64 },
    /// The bytes from `start` up to and with `end` are written, of a file of `total` bytes.
    Span { start: u64, end: u64, total: u64 },
}

/// The text of a header field, if it is there and is a text.
pub open spec fn header_value(headers: http::HeaderMap, name: Seq<char>) -> Option<Seq<char>> {
    let name = outside::lower_case(name);
    if outside::header_fields(headers).contains_key(name) {
        outside::header_text_of(outside::header_fields(headers)[name])
    } else {
        None
    }
}

/// What the field `Range` asks for. A field of another shape asks for the whole file. The start
/// must be a number; the end must be one or be left out.
pub open spec fn range_of(value: Seq<char>) -> RequestedRange {
    if "bytes="@.is_prefix_of(value) {
        match text::split_pair(value.skip("bytes="@.len() as int), '-') {
            Some((start, end)) => match (text::u64_of(start), text::u64_of(end)) {
                (Some(start), Some(end)) => RequestedRange::Bytes(
                    ByteRange { start, end: Some(end) },
                ),
                (Some(start), None) => if end.len() == 0 {
                    RequestedRange::Bytes(ByteRange { start, end: None })
                } else {
                    RequestedRange::Invalid
                },
                (None, _) => RequestedRange::Invalid,
            },
            None => RequestedRange::Whole,
        }
    } else {
        RequestedRange::Whole
    }
}

/// The smaller of two numbers.
pub open spec fn smaller(a: int, b: int) -> int {
    if a < b {
        a
    } else {
        b
    }
}

/// The first and the last byte that a range means in a file of `size` bytes, if it starts within
/// the file and does not end before its start.
pub open spec fn bytes_of_range(range: ByteRange, size: u64) -> Option<(u64, u64)> {
    let last = match range.end {
        Some(end) => smaller(end as int, size - 1),
        None => size - 1,
    };
    if range.start < size && range.start <= last {
        Some((range.start, last as u64))
    } else {
        None
    }
}

/// What the field `Content-Range` says, or the message of the error if it is not of that shape.
pub open spec fn content_range_of(value: Seq<char>) -> Result<ContentRange, Seq<char>> {
    if !"bytes "@.is_prefix_of(value) {
        Err("Invalid Content-Range format"@)
    } else {
        match text::split_pair(value.skip("bytes "@.len() as int), '/') {
            None => Err("Invalid Content-Range format"@),
            Some((span, total)) => if span == "*"@ {
                match text::u64_of(total) {
                    Some(size) => Ok(ContentRange::Truncate { size }),
                    None => Err("Invalid Content-Range size for truncate"@),
                }
            } else {
                match text::split_pair(span, '-') {
                    None => Err("Invalid Content-Range format"@),
                    Some((start, end)) => match (
                        text::u64_of(start),
                        text::u64_of(end),
                        text::u64_of(total),
                    ) {
                        (Some(start), Some(end), Some(total)) => if span_length(
                            start,
                            end,
                            total,
                        ) <= u64::MAX {
                            Ok(ContentRange::Span { start, end, total })
                        } else {
                            Err("Invalid Content-Range length"@)
                        },
                        (None, _, _) => Err("Invalid Content-Range start offset"@),
                        (_, None, _) => Err("Invalid Content-Range end offset"@),
                        (_, _, None) => Err("Invalid Content-Range total length"@),
                    },
                }
            },
        }
    }
}

/// How many bytes a span holds: none if the file is empty or the span ends before its start.
pub open spec fn span_length(start: u64, end: u64, total: u64) -> nat {
    if total == 0 || end < start {
        0
    } else {
        (end - start + 1) as nat
    }
}

/// The offset and the number of bytes of a write. A truncation has its new size in the place of
/// the offset and no number of bytes. A write without the field is one at offset 0, of which no
/// number of bytes is known.
pub open spec fn write_extent(value: Option<Seq<char>>) -> Result<
    (Option<u64>, Option<u64>),
    Seq<char>,
> {
    match value {
        None => Ok((Some(0), None)),
        Some(value) => match content_range_of(value) {
            Ok(ContentRange::Truncate { size }) => Ok((Some(size), None)),
            Ok(ContentRange::Span { start, end, total }) => Ok(
                (Some(start), Some(span_length(start, end, total) as u64)),
            ),
            Err(message) => Err(message),
        },
    }
}

/// A write is to make the file even if its body is empty: the file is said to be empty, or nothing
/// is said of it.
pub open spec fn is_creation(value: Option<Seq<char>>) -> bool {
    match value {
        None => true,
        Some(value) => content_range_of(value) matches Ok(ContentRange::Span { total, .. }) && total
            == 0,
    }
}

/// The field `Range` of a read of `size` bytes from `offset` on.
pub open spec fn range_text(offset: u64, size: nat) -> Seq<char> {
    "bytes="@ + text::decimal(offset as nat) + seq!['-'] + text::decimal(
        (offset + size - 1) as nat,
    )
}

/// The field `Content-Range` for the bytes from `first` to `last` of `total`.
pub open spec fn content_range_text(first: nat, last: nat, total: nat) -> Seq<char> {
    "bytes "@ + text::decimal(first) + seq!['-'] + text::decimal(last) + seq!['/'] + text::decimal(
        total,
    )
}

/// The field `Content-Range` of a write of `len` bytes at `offset`.
pub open spec fn write_range_text(offset: u64, len: nat) -> Seq<char> {
    content_range_text(
        offset as nat,
        if len == 0 {
            offset as nat
        } else {
            (offset + len - 1) as nat
        },
        offset as nat + len,
    )
}

/// The field `Content-Range` of a truncation to `size` bytes.
pub open spec fn truncate_range_text(size: u64) -> Seq<char> {
    "bytes */"@ + text::decimal(size as nat)
}

/// Reads a header field as a text.
pub fn header_str(headers: &http::HeaderMap, name: &str) -> (value: Option<String>)
    ensures
        match value {
            Some(value) => header_value(*headers, name@) == Some(value@),
            None => header_value(*headers, name@) is None,
        },
{
    match outside::header_field(headers, name) {
        Some(value) => outside::header_text(value.as_slice()),
        None => None,
    }
}

/// Reads the field `Range`.
pub fn parse_range(value: &str) -> (range: RequestedRange)
    ensures
        range == range_of(value@),
{
    let span: &str = match text::strip_prefix(value, "bytes=") {
        Some(span) => span,
        None => {
            return RequestedRange::Whole;
        },
    };
    let (start, end) = match text::split_once_only(span, '-') {
        Some(ends) => ends,
        None => {
            return RequestedRange::Whole;
        },
    };
    match (text::parse_u64(start), text::parse_u64(end)) {
        (Some(start), Some(end)) => RequestedRange::Bytes(ByteRange { start, end: Some(end) }),
        (Some(start), None) => if end.unicode_len() == 0 {
            RequestedRange::Bytes(ByteRange { start, end: None })
        } else {
            RequestedRange::Invalid
        },
        (None, _) => RequestedRange::Invalid,
    }
}

/// The first and the last byte that a range means in a file of `size` bytes.
pub fn resolve_range(range: ByteRange, size: u64) -> (bytes: Option<(u64, u64)>)
    ensures
        bytes == bytes_of_range(range, size),
{
    if range.start >= size {
        return None;
    }
    let last: u64 = match range.end {
        Some(end) => if end < size - 1 {
            end
        } else {
            size - 1
        },
        None => size - 1,
    };
    if range.start <= last {
        Some((range.start, last))
    } else {
        None
    }
}

/// Reads the field `Content-Range`.
pub fn parse_content_range_value(value: &str) -> (range: Result<ContentRange, String>)
    ensures
        match range {
            Ok(range) => content_range_of(value@) == Ok::<ContentRange, Seq<char>>(range),
            Err(message) => content_range_of(value@) == Err::<ContentRange, Seq<char>>(message@),
        },
{
    let (span, total) = match text::strip_prefix(value, "bytes ") {
        Some(range) => match text::split_once_only(range, '/') {
            Some(parts) => parts,
            None => {
                return Err("Invalid Content-Range format".to_owned());
            },
        },
        None => {
            return Err("Invalid Content-Range format".to_owned());
        },
    };
    if text::same(span, "*") {
        return match text::parse_u64(total) {
            Some(size) => Ok(ContentRange::Truncate { size }),
            None => Err("Invalid Content-Range size for truncate".to_owned()),
        };
    }
    let (start, end) = match text::split_once_only(span, '-') {
        Some(parts) => parts,
        None => {
            return Err("Invalid Content-Range format".to_owned());
        },
    };
    let start: u64 = match text::parse_u64(start) {
        Some(start) => start,
        None => {
            return Err("Invalid Content-Range start offset".to_owned());
        },
    };
    let end: u64 = match text::parse_u64(end) {
        Some(end) => end,
        None => {
            return Err("Invalid Content-Range end offset".to_owned());
        },
    };
    let total: u64 = match text::parse_u64(total) {
        Some(total) => total,
        None => {
            return Err("Invalid Content-Range total length".to_owned());
        },
    };
    if checked_span_length(start, end, total).is_none() {
        return Err("Invalid Content-Range length".to_owned());
    }
    Ok(ContentRange::Span { start, end, total })
}

/// How many bytes a span holds, if that can be counted in 64 bits.
pub fn checked_span_length(start: u64, end: u64, total: u64) -> (length: Option<u64>)
    ensures
        match length {
            Some(length) => length == span_length(start, end, total),
            None => span_length(start, end, total) > u64::MAX,
        },
{
    if total == 0 || end < start {
        Some(0)
    } else if end - start == u64::MAX {
        None
    } else {
        Some(end - start + 1)
    }
}

/// The offset and the number of bytes of a write, of which `Content-Range` says `value`.
pub fn content_range_extent(value: Option<&str>) -> (extent: Result<
    (Option<u64>, Option<u64>),
    String,
>)
    ensures
        match extent {
            Ok(extent) => write_extent(
                match value {
                    Some(value) => Some(value@),
                    None => None,
                },
            ) == Ok::<(Option<u64>, Option<u64>), Seq<char>>(extent),
            Err(message) => write_extent(
                match value {
                    Some(value) => Some(value@),
                    None => None,
                },
            ) == Err::<(Option<u64>, Option<u64>), Seq<char>>(message@),
        },
{
    match value {
        None => Ok((Some(0), None)),
        Some(value) => match parse_content_range_value(value) {
            Ok(ContentRange::Truncate { size }) => Ok((Some(size), None)),
            Ok(ContentRange::Span { start, end, total }) => {
                let length: u64 = if total == 0 || end < start {
                    0
                } else {
                    end - start + 1
                };
                Ok((Some(start), Some(length)))
            },
            Err(message) => Err(message),
        },
    }
}

/// The offset and the number of bytes of a write, as the field `Content-Range` says them.
pub fn parse_content_range(headers: &http::HeaderMap) -> (extent: Result<
    (Option<u64>, Option<u64>),
    String,
>)
    ensures
        match extent {
            Ok(extent) => write_extent(header_value(*headers, "Content-Range"@)) == Ok::<
                (Option<u64>, Option<u64>),
                Seq<char>,
            >(extent),
            Err(message) => write_extent(header_value(*headers, "Content-Range"@)) == Err::<
                (Option<u64>, Option<u64>),
                Seq<char>,
            >(message@),
        },
{
    match header_str(headers, "Content-Range") {
        Some(value) => content_range_extent(Some(value.as_str())),
        None => content_range_extent(None),
    }
}

/// Whether a write is to make the file even if its body is empty, where `Content-Range` says
/// `value`.
pub fn creates_file(value: Option<&str>) -> (creates: bool)
    ensures
        creates == is_creation(
            match value {
                Some(value) => Some(value@),
                None => None,
            },
        ),
{
    match value {
        None => true,
        Some(value) => match parse_content_range_value(value) {
            Ok(ContentRange::Span { start: _, end: _, total }) => total == 0,
            _ => false,
        },
    }
}

/// Writes the field `Range` of a read of `size` bytes from `offset` on.
pub fn write_range(offset: u64, size: u32) -> (value: String)
    requires
        1 <= offset + size <= u64::MAX,
    ensures
        value@ == range_text(offset, size as nat),
{
    proof {
        reveal_strlit("-");
        assert("-"@ =~= seq!['-']);
    }
    let mut value: String = "bytes=".to_owned();
    value.append(text::decimal_text(offset).as_str());
    value.append("-");
    value.append(text::decimal_text(offset + size as u64 - 1).as_str());
    value
}

/// Writes the field `Content-Range` for the bytes from `first` to `last` of `total`.
pub fn write_content_range(first: u64, last: u64, total: u64) -> (value: String)
    ensures
        value@ == content_range_text(first as nat, last as nat, total as nat),
{
    proof {
        reveal_strlit("-");
        assert("-"@ =~= seq!['-']);
        reveal_strlit("/");
        assert("/"@ =~= seq!['/']);
    }
    let mut value: String = "bytes ".to_owned();
    value.append(text::decimal_text(first).as_str());
    value.append("-");
    value.append(text::decimal_text(last).as_str());
    value.append("/");
    value.append(text::decimal_text(total).as_str());
    value
}

/// Writes the field `Content-Range` of a truncation to `size` bytes.
pub fn write_truncate_range(size: u64) -> (value: String)
    ensures
        value@ == truncate_range_text(size),
{
    let mut value: String = "bytes */".to_owned();
    value.append(text::decimal_text(size).as_str());
    value
}

proof fn lemma_no_separator(n: nat, c: char)
    requires
        !text::is_digit(c),
    ensures
        !text::decimal(n).contains(c),
{
    text::decimal_is_digits(n);
}

/// The range that a client asks for is the range that the server reads.
pub proof fn range_reads_back(offset: u64, size: nat)
    requires
        1 <= offset + size <= u64::MAX,
    ensures
        range_of(range_text(offset, size)) == RequestedRange::Bytes(
            ByteRange { start: offset, end: Some((offset + size - 1) as u64) },
        ),
{
    let value = range_text(offset, size);
    let start = text::decimal(offset as nat);
    let last = (offset + size - 1) as u64;
    let end = text::decimal(last as nat);
    reveal_strlit("bytes=");
    assert("bytes="@.is_prefix_of(value)) by {
        assert(value.subrange(0, "bytes="@.len() as int) =~= "bytes="@);
    }
    assert(value.skip("bytes="@.len() as int) =~= start + seq!['-'] + end);
    lemma_no_separator(offset as nat, '-');
    lemma_no_separator(last as nat, '-');
    text::pair_splits(start, '-', end);
    text::decimal_reads_back(offset);
    text::decimal_reads_back(last);
}

/// A read of `size` bytes at `offset` means just those bytes, as far as the file has them.
pub proof fn range_means_requested_bytes(offset: u64, size: nat, file_size: u64)
    requires
        1 <= size,
        offset + size <= u64::MAX,
    ensures
        offset < file_size ==> bytes_of_range(range_of(range_text(offset, size))->Bytes_0, file_size)
            == Some((offset, (smaller(offset + size, file_size as int) - 1) as u64)),
        offset >= file_size ==> bytes_of_range(range_of(range_text(offset, size))->Bytes_0, file_size)
            is None,
{
    range_reads_back(offset, size);
}

/// The span that the client writes in `Content-Range` is the span that the server reads. Excepted
/// is a span that is too long to be counted.
pub proof fn content_range_reads_back(first: u64, last: u64, total: u64)
    requires
        span_length(first, last, total) <= u64::MAX,
    ensures
        content_range_of(content_range_text(first as nat, last as nat, total as nat)) == Ok::<
            ContentRange,
            Seq<char>,
        >(ContentRange::Span { start: first, end: last, total }),
{
    let value = content_range_text(first as nat, last as nat, total as nat);
    let start = text::decimal(first as nat);
    let end = text::decimal(last as nat);
    let whole = text::decimal(total as nat);
    let span = start + seq!['-'] + end;
    reveal_strlit("bytes ");
    reveal_strlit("*");
    assert("bytes "@.is_prefix_of(value)) by {
        assert(value.subrange(0, "bytes "@.len() as int) =~= "bytes "@);
    }
    assert(value.skip("bytes "@.len() as int) =~= span + seq!['/'] + whole);
    lemma_no_separator(first as nat, '/');
    lemma_no_separator(last as nat, '/');
    lemma_no_separator(total as nat, '/');
    assert(!span.contains('/')) by {
        if span.contains('/') {
            let i = choose|i: int| 0 <= i < span.len() && span[i] == '/';
            if i < start.len() {
                assert(start[i] == '/');
            } else if i > start.len() {
                assert(end[i - start.len() - 1] == '/');
            }
        }
    }
    text::pair_splits(span, '/', whole);
    lemma_no_separator(first as nat, '-');
    lemma_no_separator(last as nat, '-');
    text::pair_splits(start, '-', end);
    text::decimal_is_digits(first as nat);
    assert(span.len() > 1);
    assert("*"@.len() == 1);
    text::decimal_reads_back(first);
    text::decimal_reads_back(last);
    text::decimal_reads_back(total);
}

/// The server reads the offset and the length of a write as the client sent them. A write of
/// nothing reads as such at the start of a file only.
pub proof fn write_extent_reads_back(offset: u64, len: nat)
    requires
        offset + len <= u64::MAX,
        len > 0 || offset == 0,
    ensures
        write_extent(Some(write_range_text(offset, len))) == Ok::<
            (Option<u64>, Option<u64>),
            Seq<char>,
        >((Some(offset), Some(len as u64))),
{
    let last = if len == 0 {
        offset
    } else {
        (offset + len - 1) as u64
    };
    content_range_reads_back(offset, last, (offset + len) as u64);
}

/// The server reads a truncation as the client sent it.
pub proof fn truncation_reads_back(size: u64)
    ensures
        content_range_of(truncate_range_text(size)) == Ok::<ContentRange, Seq<char>>(
            ContentRange::Truncate { size },
        ),
        write_extent(Some(truncate_range_text(size))) == Ok::<
            (Option<u64>, Option<u64>),
            Seq<char>,
        >((Some(size), None)),
{
    let value = truncate_range_text(size);
    let digits = text::decimal(size as nat);
    reveal_strlit("bytes */");
    reveal_strlit("bytes ");
    reveal_strlit("*");
    assert("bytes "@.is_prefix_of(value)) by {
        assert(value.subrange(0, "bytes "@.len() as int) =~= "bytes "@);
    }
    assert(value.skip("bytes "@.len() as int) =~= "*"@ + seq!['/'] + digits);
    lemma_no_separator(size as nat, '/');
    assert(!"*"@.contains('/'));
    text::pair_splits("*"@, '/', digits);
    text::decimal_reads_back(size);
}

} // verus!
