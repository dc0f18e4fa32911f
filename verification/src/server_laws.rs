//! What the server promises: which bytes a request is about, which file, and what is answered.

use crate::body;
use crate::body::WriterView;
use crate::calendar;
use crate::encoding;
use crate::error;
use crate::error::{ErrorCode, FsError, Reply};
use crate::fs;
use crate::fs::{EntryMetadata, FileSystem};
use crate::http as server;
use crate::http::{
    AttrPatch, AttrUpdate, CreateStart, RangePlan, ReadOutcome, ReplyHead, Route, SpaceMetadata,
    WriteStart,
};
use crate::json;
use crate::outside;
use crate::range;
use crate::range::{ByteRange, ContentRange, RequestedRange};
use crate::routes;
use crate::routes::WriteDecision;
use crate::text;
use crate::types;
use crate::types::{DirList, EntryView, FileStat};
use vstd::prelude::*;

verus! {

proof fn lemma_digits_only(n: nat, c: char)
    requires
        !('0' <= c <= '9'),
    ensures
        !text::decimal(n).contains(c),
        text::decimal(n).len() > 0,
{
    text::decimal_is_digits(n);
}

/// What is read of a file is what was asked for: the first byte is the start of the range, the
/// last one its end or the last byte of the file, whichever comes first. A range is refused just
/// where it starts behind the file, or ends before its start.
pub proof fn range_is_read_from_its_start(range: ByteRange, size: u64)
    ensures
        match range::bytes_of_range(range, size) {
            Some((first, last)) => {
                &&& first == range.start
                &&& first <= last < size
                &&& range.end is Some ==> last <= range.end->0
                &&& last == size - 1 || range.end == Some(last)
            },
            None => size <= range.start || (range.end is Some && range.end->0 < range.start),
        },
        range.start < size && (range.end is None || range.start <= range.end->0)
            ==> range::bytes_of_range(range, size) is Some,
{
}

/// A range that leaves out its end means the rest of the file.
pub proof fn open_range_means_the_rest(start: u64, size: u64)
    requires
        start < size,
    ensures
        range::bytes_of_range(ByteRange { start, end: None }, size) == Some(
            (start, (size - 1) as u64),
        ),
{
}

/// The field `Range` asks for the bytes whose numbers it holds; the end may be left out.
pub proof fn range_field_is_read(start: u64, end: u64)
    ensures
        range::range_of("bytes="@ + text::decimal(start as nat) + "-"@ + text::decimal(end as nat))
            == RequestedRange::Bytes(ByteRange { start, end: Some(end) }),
        range::range_of("bytes="@ + text::decimal(start as nat) + "-"@) == RequestedRange::Bytes(
            ByteRange { start, end: None },
        ),
{
    let a = text::decimal(start as nat);
    let b = text::decimal(end as nat);
    let none = Seq::<char>::empty();
    reveal_strlit("-");
    lemma_digits_only(start as nat, '-');
    lemma_digits_only(end as nat, '-');
    text::decimal_reads_back(start);
    text::decimal_reads_back(end);
    lemma_range_parts(a, b);
    lemma_range_parts(a, none);
    assert("bytes="@ + a + "-"@ + b =~= "bytes="@ + (a + seq!['-'] + b));
    assert("bytes="@ + a + "-"@ =~= "bytes="@ + (a + seq!['-'] + none));
}

proof fn lemma_range_parts(a: Seq<char>, b: Seq<char>)
    requires
        !a.contains('-'),
        !b.contains('-'),
    ensures
        ({
            let value = "bytes="@ + (a + seq!['-'] + b);
            &&& "bytes="@.is_prefix_of(value)
            &&& text::split_pair(value.skip("bytes="@.len() as int), '-') == Some((a, b))
        }),
{
    let value = "bytes="@ + (a + seq!['-'] + b);
    assert(value.subrange(0, "bytes="@.len() as int) =~= "bytes="@);
    assert(value.skip("bytes="@.len() as int) =~= a + seq!['-'] + b);
    text::pair_splits(a, '-', b);
}

/// A range whose start is no number, or whose end is given but no number, is invalid.
pub proof fn range_without_numbers_is_invalid(start: Seq<char>, end: Seq<char>)
    requires
        !start.contains('-'),
        !end.contains('-'),
        text::u64_of(start) is None || (end.len() > 0 && text::u64_of(end) is None),
    ensures
        range::range_of("bytes="@ + (start + seq!['-'] + end)) == RequestedRange::Invalid,
{
    lemma_range_parts(start, end);
    if end.len() == 0 {
        assert(text::u64_of(end) is None);
    }
}

/// A field `Range` in another unit asks for the whole file.
pub proof fn range_in_another_unit_is_none(value: Seq<char>)
    requires
        value.len() < 6 || value.take(6) != "bytes="@,
    ensures
        range::range_of(value) == RequestedRange::Whole,
{
    reveal_strlit("bytes=");
    if "bytes="@.is_prefix_of(value) {
        assert(value.take(6) =~= value.subrange(0, 6));
    }
}

/// A field `Range` without a hyphen, or with more than one, asks for the whole file.
pub proof fn range_of_another_shape_is_none(value: Seq<char>)
    requires
        !value.contains('-') || exists|i: int, j: int|
            0 <= i < j < value.len() && #[trigger] value[i] == '-' && #[trigger] value[j] == '-',
    ensures
        range::range_of("bytes="@ + value) == RequestedRange::Whole,
{
    let field = "bytes="@ + value;
    assert(field.skip("bytes="@.len() as int) =~= value);
    if text::split_pair(value, '-') is Some {
        let k = choose|k: int| text::only_at(value, '-', k);
        assert(value[k] == '-');
        assert(value.contains('-'));
        assert(false);
    }
}

/// The text of a field `Content-Range` that holds these numbers.
pub open spec fn span_field(start: u64, end: u64, total: u64) -> Seq<char> {
    "bytes "@ + text::decimal(start as nat) + "-"@ + text::decimal(end as nat) + "/"@
        + text::decimal(total as nat)
}

proof fn lemma_span_field(start: u64, end: u64, total: u64)
    ensures
        span_field(start, end, total) == range::content_range_text(
            start as nat,
            end as nat,
            total as nat,
        ),
{
    reveal_strlit("-");
    reveal_strlit("/");
    assert("-"@ =~= seq!['-']);
    assert("/"@ =~= seq!['/']);
}

/// The server reads from `Content-Range: bytes start-end/total` the offset `start`, and as many
/// bytes as lie from `start` to `end`, whatever the total; none if the total is 0 or the end lies
/// before the start.
pub proof fn write_lands_where_the_field_says(start: u64, end: u64, total: u64)
    requires
        !(start == 0 && end == u64::MAX && total > 0),
    ensures
        start <= end && total > 0 ==> range::write_extent(Some(span_field(start, end, total)))
            == Ok::<(Option<u64>, Option<u64>), Seq<char>>(
            (Some(start), Some((end - start + 1) as u64)),
        ),
        start > end || total == 0 ==> range::write_extent(Some(span_field(start, end, total)))
            == Ok::<(Option<u64>, Option<u64>), Seq<char>>((Some(start), Some(0))),
        range::is_creation(Some(span_field(start, end, total))) <==> total == 0,
        range::content_range_of(span_field(start, end, total)) == Ok::<ContentRange, Seq<char>>(
            ContentRange::Span { start, end, total },
        ),
{
    lemma_span_field(start, end, total);
    range::content_range_reads_back(start, end, total);
}

/// A span of all the numbers of 64 bits cannot be counted and is refused.
#[verifier::spinoff_prover]
pub proof fn endless_span_is_refused(total: u64)
    requires
        total > 0,
    ensures
        range::content_range_of(span_field(0, u64::MAX, total)) == Err::<ContentRange, Seq<char>>(
            "Invalid Content-Range length"@,
        ),
        range::write_extent(Some(span_field(0, u64::MAX, total))) is Err,
{
    let value = span_field(0, u64::MAX, total);
    let a = text::decimal(0);
    let b = text::decimal(u64::MAX as nat);
    let c = text::decimal(total as nat);
    reveal_strlit("-");
    reveal_strlit("/");
    reveal_strlit("*");
    let span = a + seq!['-'] + b;
    assert(value.subrange(0, "bytes "@.len() as int) =~= "bytes "@);
    assert(value.skip("bytes "@.len() as int) =~= span + seq!['/'] + c);
    lemma_digits_only(0, '-');
    lemma_digits_only(u64::MAX as nat, '-');
    lemma_digits_only(0, '/');
    lemma_digits_only(u64::MAX as nat, '/');
    lemma_digits_only(total as nat, '/');
    assert(!span.contains('/')) by {
        if span.contains('/') {
            let i = choose|i: int| 0 <= i < span.len() && span[i] == '/';
            if i < a.len() {
                assert(a[i] == '/');
            } else if i > a.len() {
                assert(b[i - a.len() - 1] == '/');
            }
        }
    }
    text::pair_splits(span, '/', c);
    text::pair_splits(a, '-', b);
    assert(a.len() > 0 && b.len() > 0) by {
        text::decimal_is_digits(0);
        text::decimal_is_digits(u64::MAX as nat);
    }
    assert(span.len() > 1 && "*"@.len() == 1);
    text::decimal_reads_back(0);
    text::decimal_reads_back(u64::MAX);
    text::decimal_reads_back(total);
    assert(range::span_length(0, u64::MAX, total) > u64::MAX);
    assert(text::split_pair(value.skip("bytes "@.len() as int), '/') == Some((span, c)));
    assert(text::split_pair(span, '-') == Some((a, b)));
}

/// The field `Content-Range: bytes */size` is a truncation to just that size, and no creation.
pub proof fn truncation_field_is_read(size: u64)
    ensures
        range::write_extent(Some("bytes */"@ + text::decimal(size as nat))) == Ok::<
            (Option<u64>, Option<u64>),
            Seq<char>,
        >((Some(size), None)),
        range::content_range_of("bytes */"@ + text::decimal(size as nat)) == Ok::<
            ContentRange,
            Seq<char>,
        >(ContentRange::Truncate { size }),
        !range::is_creation(Some("bytes */"@ + text::decimal(size as nat))),
{
    range::truncation_reads_back(size);
    assert("bytes */"@ + text::decimal(size as nat) == range::truncate_range_text(size));
}

/// Without `Content-Range` a write starts at the front of the file, has no promised length, and
/// makes the file.
pub proof fn missing_field_is_a_write_at_the_front()
    ensures
        range::write_extent(None) == Ok::<(Option<u64>, Option<u64>), Seq<char>>((Some(0), None)),
        range::is_creation(None),
{
}

/// A field `Content-Range` in another unit is refused.
pub proof fn content_range_in_another_unit_is_refused(value: Seq<char>)
    requires
        value.len() < 6 || value.take(6) != "bytes "@,
    ensures
        range::content_range_of(value) == Err::<ContentRange, Seq<char>>(
            "Invalid Content-Range format"@,
        ),
        range::write_extent(Some(value)) == Err::<(Option<u64>, Option<u64>), Seq<char>>(
            "Invalid Content-Range format"@,
        ),
{
    reveal_strlit("bytes ");
    if "bytes "@.is_prefix_of(value) {
        assert(value.take(6) =~= value.subrange(0, 6));
    }
}

proof fn lemma_outer_parts(span: Seq<char>, total: Seq<char>)
    requires
        !span.contains('/'),
        !total.contains('/'),
    ensures
        ({
            let value = "bytes "@ + (span + seq!['/'] + total);
            &&& "bytes "@.is_prefix_of(value)
            &&& text::split_pair(value.skip("bytes "@.len() as int), '/') == Some((span, total))
        }),
{
    let value = "bytes "@ + (span + seq!['/'] + total);
    assert(value.subrange(0, "bytes "@.len() as int) =~= "bytes "@);
    assert(value.skip("bytes "@.len() as int) =~= span + seq!['/'] + total);
    text::pair_splits(span, '/', total);
}

/// A field `Content-Range` with something else than numbers is refused, and the message names the
/// first that is none.
pub proof fn content_range_without_numbers_is_refused(
    start: Seq<char>,
    end: Seq<char>,
    total: Seq<char>,
)
    requires
        !start.contains('-') && !start.contains('/'),
        !end.contains('-') && !end.contains('/'),
        !total.contains('/'),
    ensures
        ({
            let read = range::content_range_of(
                "bytes "@ + (start + seq!['-'] + end + seq!['/'] + total),
            );
            &&& text::u64_of(start) is None ==> read == Err::<ContentRange, Seq<char>>(
                "Invalid Content-Range start offset"@,
            )
            &&& text::u64_of(start) is Some && text::u64_of(end) is None ==> read == Err::<
                ContentRange,
                Seq<char>,
            >("Invalid Content-Range end offset"@)
            &&& text::u64_of(start) is Some && text::u64_of(end) is Some && text::u64_of(total)
                is None ==> read == Err::<ContentRange, Seq<char>>(
                "Invalid Content-Range total length"@,
            )
        }),
        text::u64_of(total) is None ==> range::content_range_of("bytes */"@ + total) == Err::<
            ContentRange,
            Seq<char>,
        >("Invalid Content-Range size for truncate"@),
{
    let span = start + seq!['-'] + end;
    reveal_strlit("*");
    reveal_strlit("bytes ");
    reveal_strlit("bytes */");
    assert(!span.contains('/')) by {
        if span.contains('/') {
            let i = choose|i: int| 0 <= i < span.len() && span[i] == '/';
            if i < start.len() {
                assert(start[i] == '/');
            } else if i > start.len() {
                assert(end[i - start.len() - 1] == '/');
            }
        }
    }
    lemma_outer_parts(span, total);
    text::pair_splits(start, '-', end);
    assert(span != "*"@) by {
        if span == "*"@ {
            assert(span[start.len() as int] == '-');
            assert("*"@[start.len() as int] == '*');
        }
    }
    assert(!"*"@.contains('/'));
    lemma_outer_parts("*"@, total);
    assert("bytes */"@ + total =~= "bytes "@ + ("*"@ + seq!['/'] + total));
}

/// The body of a write of a span stands in the file from the start of the span on, however it
/// comes, and whatever the file held; it is answered as done if it has the length of the span.
pub proof fn span_is_written_at_its_start(
    file: Seq<u8>,
    start: u64,
    end: u64,
    total: u64,
    chunks: Seq<Seq<u8>>,
)
    requires
        start <= end,
        end - start < u64::MAX,
        total > 0,
        chunks.flatten().len() == end - start + 1,
    ensures
        match range::write_extent(Some(span_field(start, end, total))) {
            Ok((Some(offset), Some(expected))) => {
                let creates = range::is_creation(Some(span_field(start, end, total)));
                let after = body::after_writes(
                    file,
                    WriterView::at(offset as nat, creates).all_writes(chunks),
                );
                &&& after.len() > end
                &&& after.subrange(start as int, end + 1) == chunks.flatten()
                &&& forall|i: int|
                    0 <= i < file.len() && !(start <= i <= end) ==> #[trigger] after[i] == file[i]
                &&& server::written_answer(expected as nat, chunks.flatten().len()).status == 200
            },
            _ => false,
        },
{
    write_lands_where_the_field_says(start, end, total);
    body::writes_make_the_body(file, start as nat, false, chunks);
    body::written_bytes_stand(file, start as nat, chunks.flatten());
}

/// What a request with `Content-Range` does to the file: a span is written at its start, with the
/// length of the span as the promised one; a truncation gives the file its size; without the field
/// the body is written at the front.
pub proof fn start_of_write_follows_the_field(
    decision: WriteStart,
    file: Seq<char>,
    start: u64,
    end: u64,
    total: u64,
)
    requires
        !(start == 0 && end == u64::MAX && total > 0),
    ensures
        server::write_decided(decision, file, Some(span_field(start, end, total))) ==> (
        decision matches WriteStart::Write { path, offset, expected, creates } && path@ == file
            && offset == start && creates == (total == 0) && expected == if total > 0 && start
            <= end {
            end - start + 1
        } else {
            0
        }),
        server::write_decided(decision, file, Some("bytes */"@ + text::decimal(total as nat))) ==> (
        decision matches WriteStart::Truncate { path, size } && path@ == file && size == total),
        server::write_decided(decision, file, None) ==> (decision matches WriteStart::Write {
            path,
            offset,
            expected,
            creates,
        } && path@ == file && offset == 0 && expected == 0 && creates),
{
    write_lands_where_the_field_says(start, end, total);
    truncation_field_is_read(total);
}

/// A request with a field `Content-Range` that cannot be read changes nothing: it is refused.
pub proof fn unreadable_field_is_refused(
    start: WriteStart,
    decision: WriteDecision,
    file: Seq<char>,
    value: Seq<char>,
    len: nat,
)
    requires
        range::content_range_of(value) is Err,
    ensures
        server::write_decided(start, file, Some(value)) ==> (start matches WriteStart::Refused(
            reply,
        ) && reply@.status == 400),
        routes::decided(decision, file, Some(value), len) ==> (
        decision matches WriteDecision::Refused(reply) && reply@.status == 400),
{
}

/// A server that has the whole body of a write writes it at the start of the span if it has its
/// length, and refuses it otherwise. A truncation has no body. Without the field the body is
/// written at the front.
pub proof fn whole_body_follows_the_field(
    decision: WriteDecision,
    file: Seq<char>,
    start: u64,
    end: u64,
    total: u64,
    len: nat,
)
    requires
        start <= end,
        end - start < u64::MAX,
        total > 0,
    ensures
        routes::decided(decision, file, Some(span_field(start, end, total)), len) && len == end
            - start + 1 ==> (decision matches WriteDecision::Write { path, offset } && path@ == file
            && offset == start),
        routes::decided(decision, file, Some(span_field(start, end, total)), len) && len != end
            - start + 1 ==> (decision matches WriteDecision::Refused(reply) && reply@.status
            == 400),
        routes::decided(decision, file, Some("bytes */"@ + text::decimal(total as nat)), len) ==> if len
            == 0 {
            decision matches WriteDecision::Truncate { path, size } && path@ == file && size
                == total
        } else {
            decision matches WriteDecision::Refused(reply) && reply@.status == 400 && reply@.body
                == json::object_text(
                error::error_members(
                    ErrorCode::Einval,
                    "Truncate operation should not include content"@,
                    None,
                    None,
                ),
            )
        },
        routes::decided(decision, file, None, len) ==> (decision matches WriteDecision::Write {
            path,
            offset,
        } && path@ == file && offset == 0),
{
    write_lands_where_the_field_says(start, end, total);
    truncation_field_is_read(total);
}

/// The head of the answer to a read of a part tells which bytes follow, of how many, and how long
/// the body is.
pub proof fn part_is_announced(start: u64, end: u64, size: u64, len: u64)
    requires
        start <= end < size,
    ensures
        ({
            let head = server::part_head(start, end, size, len as nat);
            &&& head.status == 206
            &&& head.headers.len() == 3
            &&& head.headers[0].0 == "Content-Range"@
            &&& range::content_range_of(head.headers[0].1) == Ok::<ContentRange, Seq<char>>(
                ContentRange::Span { start, end, total: size },
            )
            &&& head.headers[1] == ("Accept-Ranges"@, "bytes"@)
            &&& head.headers[2].0 == "Content-Length"@
            &&& text::u64_of(head.headers[2].1) == Some(len)
        }),
{
    range::content_range_reads_back(start, end, size);
    text::decimal_reads_back(len);
}

/// The head of the answer with a whole file, or with a listing, tells how long the body is.
pub proof fn whole_is_announced(len: u64)
    ensures
        ({
            let head = server::whole_head(len as nat);
            &&& head.status == 200
            &&& head.headers.len() == 2
            &&& head.headers[0] == ("Accept-Ranges"@, "bytes"@)
            &&& head.headers[1].0 == "Content-Length"@
            &&& text::u64_of(head.headers[1].1) == Some(len)
        }),
        ({
            let head = server::listing_head(len as nat);
            &&& head.status == 200
            &&& head.headers.len() == 2
            &&& head.headers[0] == ("content-type"@, "application/json"@)
            &&& head.headers[1].0 == "content-length"@
            &&& text::u64_of(head.headers[1].1) == Some(len)
        }),
{
    text::decimal_reads_back(len);
}

/// A body of the promised length is answered as done, and one of another length with an error. No
/// length is promised by 0.
pub proof fn short_body_is_refused(expected: nat, received: nat)
    ensures
        expected == 0 || expected == received ==> server::written_answer(expected, received).status
            == 200,
        expected > 0 && expected != received ==> server::written_answer(expected, received).status
            == 400,
        server::created_answer().status == 201 && server::created_answer().body.len() == 0,
        server::done_answer().status == 200 && server::done_answer().body.len() == 0,
{
}

/// A read that failed is answered with the status and the message of the failure, and one whose
/// task was lost with a status for a fault of the server.
pub proof fn failed_read_is_told(outcome: ReadOutcome)
    ensures
        match outcome {
            ReadOutcome::Body { len } => server::read_failure(outcome) is None,
            ReadOutcome::Failed(error) => server::read_failure(outcome) matches Some(answer)
                && answer.status == error.code.http_status() && answer.body == json::object_text(
                error::error_members(error.code, error.message@, None, None),
            ),
            ReadOutcome::Lost => server::read_failure(outcome) matches Some(answer)
                && answer.status == 500 && answer.body == json::object_text(
                error::error_members(ErrorCode::Eio, "Task join error"@, None, None),
            ),
        },
{
}

/// Each error code has its status and its name.
pub proof fn codes_are_answered()
    ensures
        ErrorCode::Enoent.http_status() == 404 && ErrorCode::Enoent.name_text() == "ENOENT"@,
        ErrorCode::Eacces.http_status() == 403 && ErrorCode::Eacces.name_text() == "EACCES"@,
        ErrorCode::Eexist.http_status() == 409 && ErrorCode::Eexist.name_text() == "EEXIST"@,
        ErrorCode::Enotempty.http_status() == 409 && ErrorCode::Enotempty.name_text()
            == "ENOTEMPTY"@,
        ErrorCode::Enospc.http_status() == 507 && ErrorCode::Enospc.name_text() == "ENOSPC"@,
        ErrorCode::Einval.http_status() == 400 && ErrorCode::Einval.name_text() == "EINVAL"@,
        ErrorCode::Eio.http_status() == 500 && ErrorCode::Eio.name_text() == "EIO"@,
{
}

/// An error of the operating system has the code of that name; what is of the wrong kind counts as
/// not found, and what is not permitted as denied.
pub proof fn system_errors_have_their_code(errno: i32)
    ensures
        ErrorCode::for_errno(errno) == ErrorCode::Enoent <==> errno == 2 || errno == 20 || errno
            == 21,
        ErrorCode::for_errno(errno) == ErrorCode::Eacces <==> errno == 1 || errno == 13,
        ErrorCode::for_errno(errno) == ErrorCode::Eexist <==> errno == 17,
        ErrorCode::for_errno(errno) == ErrorCode::Enotempty <==> errno == 39,
        ErrorCode::for_errno(errno) == ErrorCode::Enospc <==> errno == 28,
        ErrorCode::for_errno(errno) == ErrorCode::Einval <==> errno == 22,
{
}

/// An error is described by its status, its message and its code; what a developer may want to
/// know stands under `details`, and the path of a request that nothing serves under `path`.
pub proof fn errors_are_described(
    code: ErrorCode,
    message: Seq<char>,
    debug: Option<Seq<char>>,
    path: Option<Seq<char>>,
)
    ensures
        ({
            let answer = error::error_answer(code, message, debug, path);
            let members = error::error_members(code, message, debug, path);
            &&& answer.status == code.http_status()
            &&& answer.headers == seq![("content-type"@, "application/json"@)]
            &&& answer.body == json::object_text(members)
            &&& members.len() == if path is Some {
                5int
            } else {
                4int
            }
            &&& members[0] == ("status"@, json::JsonValue::Text("error"@))
            &&& members[1] == ("error"@, json::JsonValue::Text(message))
            &&& members[2] == ("code"@, json::JsonValue::Text(code.name_text()))
            &&& members[3].0 == "details"@
            &&& debug is None ==> members[3].1 == json::JsonValue::Object(Seq::empty())
            &&& debug is Some ==> members[3].1 == json::JsonValue::Object(
                seq![("debug"@, debug->0)],
            )
            &&& path is Some ==> members[4] == ("path"@, json::JsonValue::Text(path->0))
        }),
        ({
            let answer = server::not_found_answer(message);
            &&& answer.status == 404
            &&& answer.body == json::object_text(
                error::error_members(ErrorCode::Enoent, "Not found"@, None, Some(message)),
            )
        }),
        error::failure_answer(code, message) == error::error_answer(code, message, None, None),
        server::bad_range_answer().status == 400,
        server::bad_mode_answer().status == 400,
        server::bad_destination_answer().status == 400,
        server::bad_attributes_answer().status == 400,
{
}

/// An object in JSON is written in braces, its members in order and separated by commas.
pub proof fn objects_are_written_in_order(
    members: Seq<(Seq<char>, json::JsonValue)>,
    texts: Seq<(Seq<char>, Seq<char>)>,
    name: Seq<char>,
    number: u64,
    value: Seq<char>,
)
    ensures
        json::object_text(Seq::empty()) == "{}"@,
        members.len() > 0 ==> json::object_text(
            members.push((name, json::JsonValue::Number(number))),
        ) == json::object_text(members).drop_last() + seq![','] + encoding::json_string(name)
            + seq![':'] + text::decimal(number as nat) + seq!['}'],
        members.len() > 0 ==> json::object_text(members.push((name, json::JsonValue::Text(value))))
            == json::object_text(members).drop_last() + seq![','] + encoding::json_string(name)
            + seq![':'] + encoding::json_string(value) + seq!['}'],
        json::object_text(seq![(name, json::JsonValue::Text(value))]) == seq!['{']
            + encoding::json_string(name) + seq![':'] + encoding::json_string(value) + seq!['}'],
        json::value_text(json::JsonValue::Object(Seq::empty())) == "{}"@,
        json::value_text(json::JsonValue::Object(seq![(name, value)])) == seq!['{']
            + encoding::json_string(name) + seq![':'] + encoding::json_string(value) + seq!['}'],
        texts.len() > 0 ==> json::value_text(json::JsonValue::Object(texts.push((name, value))))
            == json::value_text(json::JsonValue::Object(texts)).drop_last() + seq![',']
            + encoding::json_string(name) + seq![':'] + encoding::json_string(value) + seq!['}'],
{
    reveal_strlit("{}");
    let none = Seq::<(Seq<char>, json::JsonValue)>::empty();
    assert(json::member_list(none) =~= Seq::<char>::empty());
    assert(json::object_text(none) =~= "{}"@);
    assert(json::object_text(members).drop_last() =~= seq!['{'] + json::member_list(members));
    let a = members.push((name, json::JsonValue::Number(number)));
    let b = members.push((name, json::JsonValue::Text(value)));
    assert(a.drop_last() =~= members);
    assert(b.drop_last() =~= members);
    if members.len() > 0 {
        assert(json::object_text(a) =~= json::object_text(members).drop_last() + seq![',']
            + encoding::json_string(name) + seq![':'] + text::decimal(number as nat) + seq!['}']);
        assert(json::object_text(b) =~= json::object_text(members).drop_last() + seq![',']
            + encoding::json_string(name) + seq![':'] + encoding::json_string(value) + seq!['}']);
    }
    let one = seq![(name, json::JsonValue::Text(value))];
    assert(json::object_text(one) =~= seq!['{'] + encoding::json_string(name) + seq![':']
        + encoding::json_string(value) + seq!['}']);
    let nothing = Seq::<(Seq<char>, Seq<char>)>::empty();
    assert(json::text_members(nothing) =~= Seq::<char>::empty());
    assert(json::value_text(json::JsonValue::Object(nothing)) =~= "{}"@);
    let more = texts.push((name, value));
    let before = json::value_text(json::JsonValue::Object(texts)).drop_last();
    assert(more.drop_last() =~= texts);
    assert(before =~= seq!['{'] + json::text_members(texts));
    if texts.len() > 0 {
        assert(json::value_text(json::JsonValue::Object(more)) =~= before + seq![',']
            + encoding::json_string(name) + seq![':'] + encoding::json_string(value) + seq!['}']);
    }
    let single = seq![(name, value)];
    assert(json::value_text(json::JsonValue::Object(single)) =~= seq!['{'] + encoding::json_string(
        name,
    ) + seq![':'] + encoding::json_string(value) + seq!['}']);
}

/// A request that is none of the protocol is served by nothing: another method, or another path.
pub proof fn other_requests_are_not_served(method: Seq<char>, path: Seq<char>)
    ensures
        server::route_of(method, path) != Route::NotFound ==> {
            &&& method == "GET"@ || method == "PATCH"@ || method == "PUT"@ || method == "DELETE"@
            &&& "/file/"@.is_prefix_of(path) || "/dir/"@.is_prefix_of(path)
                || "/attr/"@.is_prefix_of(path) || path == "/fs/stats"@
        },
        method == "PATCH"@ && "/dir/"@.is_prefix_of(path) ==> server::route_of(method, path)
            == Route::NotFound,
        (method == "PUT"@ || method == "DELETE"@) && "/attr/"@.is_prefix_of(path)
            ==> server::route_of(method, path) == Route::NotFound,
        method != "GET"@ && path == "/fs/stats"@ ==> server::route_of(method, path)
            == Route::NotFound,
{
    reveal_strlit("/file/");
    reveal_strlit("/dir/");
    reveal_strlit("/attr/");
    reveal_strlit("/fs/stats");
    reveal_strlit("GET");
    reveal_strlit("PUT");
    reveal_strlit("PATCH");
    reveal_strlit("DELETE");
    assert("GET"@.len() == 3 && "PUT"@.len() == 3 && "PATCH"@.len() == 5 && "DELETE"@.len() == 6);
    assert("GET"@[0] == 'G' && "PUT"@[0] == 'P');
    let stats = "/fs/stats"@;
    assert("/file/"@.is_prefix_of(stats) ==> stats.subrange(0, 6)[2] == 'i');
    assert("/dir/"@.is_prefix_of(stats) ==> stats.subrange(0, 5)[1] == 'd');
    assert("/attr/"@.is_prefix_of(stats) ==> stats.subrange(0, 6)[1] == 'a');
    assert("/file/"@.is_prefix_of(path) ==> path.subrange(0, 6)[1] == 'f');
    assert("/dir/"@.is_prefix_of(path) ==> path.subrange(0, 5)[1] == 'd');
    assert("/attr/"@.is_prefix_of(path) ==> path.subrange(0, 6)[1] == 'a');
    if "/file/"@.is_prefix_of(path) {
        assert(path[1] == path.subrange(0, 6)[1]);
    }
    if "/dir/"@.is_prefix_of(path) {
        assert(path[1] == path.subrange(0, 5)[1]);
    }
    if "/attr/"@.is_prefix_of(path) {
        assert(path[1] == path.subrange(0, 6)[1]);
    }
}

/// A path that was encoded for a URL is the one that a request is about, whatever characters it
/// holds, for files, directories, attributes and the goal of a move.
pub proof fn encoded_path_is_the_path(path: Seq<char>)
    ensures
        server::requested_file("/file/"@ + encoding::percent_encoded(path)) == "/file/"@ + path,
        server::requested_dir("/dir/"@ + encoding::percent_encoded(path)) == "/dir/"@ + path,
        server::requested_attr("/attr/"@ + encoding::percent_encoded(path)) == "/attr/"@ + path,
        server::destination_of("/file/"@ + encoding::percent_encoded(path)) == Some(
            "/file/"@ + path,
        ),
        routes::file_named(encoding::percent_encoded(path)) == "/file/"@ + path,
        routes::dir_named(Some(encoding::percent_encoded(path))) == "/dir/"@ + path,
        routes::dir_named(None) == "/dir/"@,
{
    let encoded = encoding::percent_encoded(path);
    encoding::encoded_text_reads_back(path);
    text::prefix_comes_off_once(encoded, "/file/"@);
    text::prefix_comes_off_once(encoded, "/dir/"@);
    text::prefix_comes_off_once(encoded, "/attr/"@);
    let url = "/file/"@ + encoded;
    assert(url.subrange(0, "/file/"@.len() as int) =~= "/file/"@);
}

/// A path that cannot be decoded is taken as it stands.
pub proof fn undecodable_path_stands(path: Seq<char>)
    requires
        encoding::percent_decoded(path) is None,
    ensures
        server::requested_file("/file/"@ + path) == "/file/"@ + path,
        server::requested_dir("/dir/"@ + path) == "/dir/"@ + path,
        server::requested_attr("/attr/"@ + path) == "/attr/"@ + path,
        routes::file_named(path) == "/file/"@ + path,
        routes::dir_named(Some(path)) == "/dir/"@ + path,
{
    text::prefix_comes_off_once(path, "/file/"@);
    text::prefix_comes_off_once(path, "/dir/"@);
    text::prefix_comes_off_once(path, "/attr/"@);
}

/// A goal that is no file is none. A request is a move just where it holds the field.
pub proof fn destination_must_be_a_file(headers: http::HeaderMap, value: Seq<char>)
    ensures
        !"/file/"@.is_prefix_of(value) ==> server::destination_of(value) is None,
        server::requested_destination(headers) is Some <==> outside::header_fields(
            headers,
        ).contains_key("destination"@),
        range::header_value(headers, "Destination"@) == Some(value)
            ==> server::requested_destination(headers) == Some(server::destination_of(value)),
{
    reveal_strlit("Destination");
    reveal_strlit("destination");
    assert(outside::lower_case("Destination"@) =~= "destination"@);
}

/// A header field is found in whatever case its name is written, and is a text just where it holds
/// printable ASCII and tabs; the text then has the characters of these bytes.
pub proof fn header_field_is_text(headers: http::HeaderMap, a: Seq<char>, b: Seq<char>)
    ensures
        outside::lower_case(a) == outside::lower_case(b) ==> range::header_value(headers, a)
            == range::header_value(headers, b),
        !outside::header_fields(headers).contains_key(outside::lower_case(a))
            ==> range::header_value(headers, a) is None,
        range::header_value(headers, a) matches Some(value) ==> {
            let bytes = outside::header_fields(headers)[outside::lower_case(a)];
            &&& value.len() == bytes.len()
            &&& forall|i: int|
                0 <= i < value.len() ==> (#[trigger] value[i]) as u32 == bytes[i] && (32
                    <= bytes[i] < 127 || bytes[i] == 9)
        },
{
    if range::header_value(headers, a) is Some {
        let value = range::header_value(headers, a)->0;
        let bytes = outside::header_fields(headers)[outside::lower_case(a)];
        assert forall|i: int| 0 <= i < value.len() implies (#[trigger] value[i]) as u32 == bytes[i]
            && (32 <= bytes[i] < 127 || bytes[i] == 9) by {
            assert(outside::is_visible_ascii(bytes[i]));
        }
    }
}

/// The range that a request asks for is that of its field `Range`; without it, the whole file.
pub proof fn range_comes_from_its_field(headers: http::HeaderMap, start: u64, end: u64)
    ensures
        range::header_value(headers, "Range"@) is None ==> server::requested_range(headers)
            == RequestedRange::Whole,
        range::header_value(headers, "Range"@) == Some(
            "bytes="@ + text::decimal(start as nat) + "-"@ + text::decimal(end as nat),
        ) ==> server::requested_range(headers) == RequestedRange::Bytes(
            ByteRange { start, end: Some(end) },
        ),
        range::header_value(headers, "Range"@) == Some(
            "bytes="@ + text::decimal(start as nat) + "-"@,
        ) ==> server::requested_range(headers) == RequestedRange::Bytes(
            ByteRange { start, end: None },
        ),
{
    range_field_is_read(start, end);
}

/// The permissions of what is made are those of the query, and 0644 for a file and 0755 for a
/// directory where it gives none.
pub proof fn mode_comes_from_the_query(
    special: u32,
    owner: u32,
    group: u32,
    others: u32,
    default: u32,
    before: Seq<char>,
    behind: Seq<char>,
    bad: Seq<char>,
)
    requires
        special < 8 && owner < 8 && group < 8 && others < 8,
        !before.contains('&'),
        !"mode="@.is_prefix_of(before),
        !bad.contains('&'),
    ensures
        ({
            let given = seq![
                text::digit(owner as nat),
                text::digit(group as nat),
                text::digit(others as nat),
            ];
            let mode = Some((owner * 64 + group * 8 + others) as u32);
            &&& server::requested_mode(None, default) == Some(default)
            &&& server::requested_mode(Some(before), default) == Some(default)
            &&& server::requested_mode(Some("mode="@ + given), default) == mode
            &&& server::requested_mode(Some("mode="@ + (seq!['0'] + given)), default) == mode
            &&& server::requested_mode(
                Some("mode="@ + (seq![text::digit(special as nat)] + given)),
                default,
            ) == Some((special * 512 + owner * 64 + group * 8 + others) as u32)
            &&& server::requested_mode(Some("mode="@ + given + seq!['&'] + behind), default) == mode
            &&& server::requested_mode(Some(before + seq!['&'] + behind), default)
                == server::requested_mode(Some(behind), default)
            &&& text::octal_of(bad, 0o7777) is None ==> server::requested_mode(
                Some("mode="@ + bad),
                default,
            ) is None
        }),
        server::FILE_MODE == 0o644,
        server::DIR_MODE == 0o755,
{
    let given = seq![
        text::digit(owner as nat),
        text::digit(group as nat),
        text::digit(others as nat),
    ];
    text::permissions_are_octal(special, owner, group, others);
    text::parts_of_two(before, '&', behind);
    lemma_first_of_two(before, text::parts(behind, '&'), "mode="@);
    assert(seq![before].skip(1) =~= Seq::<Seq<char>>::empty());
    lemma_mode_query(given);
    lemma_mode_query(seq!['0'] + given);
    lemma_mode_query(seq![text::digit(special as nat)] + given);
    lemma_first_counts(given, behind);
    lemma_mode_query(bad);
}

proof fn lemma_first_counts(value: Seq<char>, behind: Seq<char>)
    requires
        !value.contains('&'),
    ensures
        server::first_with(text::parts("mode="@ + value + seq!['&'] + behind, '&'), "mode="@)
            == Some(value),
{
    lemma_mode_query(value);
    reveal_strlit("mode=");
    let query = "mode="@ + value;
    assert(!query.contains('&')) by {
        if query.contains('&') {
            let i = choose|i: int| 0 <= i < query.len() && query[i] == '&';
            if i >= 5 {
                assert(value[i - 5] == '&');
            }
        }
    }
    text::parts_of_two(query, '&', behind);
    let parts = text::parts(query + seq!['&'] + behind, '&');
    assert(parts[0] =~= query);
    assert(query.subrange(0, 5) =~= "mode="@);
    assert(query.skip(5) =~= value);
}

proof fn lemma_first_of_two(first: Seq<char>, rest: Seq<Seq<char>>, prefix: Seq<char>)
    requires
        !prefix.is_prefix_of(first),
    ensures
        server::first_with(seq![first] + rest, prefix) == server::first_with(rest, prefix),
        server::first_with(seq![first], prefix) is None,
{
    assert((seq![first] + rest).skip(1) =~= rest);
    assert(server::first_with(Seq::<Seq<char>>::empty(), prefix) is None);
    assert(seq![first].skip(1) =~= Seq::<Seq<char>>::empty());
}

proof fn lemma_mode_query(value: Seq<char>)
    requires
        !value.contains('&'),
    ensures
        server::first_with(text::parts("mode="@ + value, '&'), "mode="@) == Some(value),
{
    reveal_strlit("mode=");
    let query = "mode="@ + value;
    assert(!query.contains('&')) by {
        if query.contains('&') {
            let i = choose|i: int| 0 <= i < query.len() && query[i] == '&';
            if i >= 5 {
                assert(value[i - 5] == '&');
            }
        }
    }
    text::parts_of_two(query, '&', Seq::empty());
    assert(query.subrange(0, 5) =~= "mode="@);
    assert(query.skip(5) =~= value);
}

/// What is to be made is made at the path that was asked for, with the mode that was asked for.
pub proof fn creation_follows_the_request(start: CreateStart, meant: Seq<char>, mode: u32)
    ensures
        server::creation_decided(start, meant, Some(mode)) ==> (start matches CreateStart::Create {
            path,
            mode: m,
        } && path@ == meant && m == mode),
        server::creation_decided(start, meant, None) ==> (start matches CreateStart::Refused(reply)
            && reply@.status == 400),
{
}

/// A change of attributes sets just what the request gives: the mode as it is, and points in time
/// as they are written in ISO 8601. What is no mode or no point in time is refused.
pub proof fn attributes_are_set_as_given(
    mode: Option<u32>,
    mtime: Option<u64>,
    atime: Option<u64>,
    bad: Seq<char>,
)
    requires
        forall|secs: u64| calendar::iso8601(secs as nat) != bad,
    ensures
        ({
            let written = |time: Option<u64>|
                match time {
                    Some(secs) => Some(calendar::iso8601(secs as nat)),
                    None => None,
                };
            &&& mode is None || mode->0 <= 0o7777 ==> server::requested_update(
                mode,
                written(mtime),
                written(atime),
            ) == Some(AttrUpdate { mode, mtime, atime })
            &&& mode is Some && mode->0 > 0o7777 ==> server::requested_update(
                mode,
                written(mtime),
                written(atime),
            ) is None
            &&& server::requested_update(mode, Some(bad), written(atime)) is None
            &&& server::requested_update(mode, written(mtime), Some(bad)) is None
        }),
{
    if mtime is Some {
        calendar::iso8601_reads_back(mtime->0);
    }
    if atime is Some {
        calendar::iso8601_reads_back(atime->0);
    }
}

/// The attributes of a file are told under their names.
pub proof fn attributes_are_told(stat: EntryView)
    ensures
        ({
            let members = server::stat_members(stat);
            &&& members.len() == 6
            &&& members.contains(("type"@, json::JsonValue::Text(stat.type_)))
            &&& members.contains(("size"@, json::JsonValue::Number(stat.size)))
            &&& members.contains(("mode"@, json::JsonValue::Number(stat.mode as u64)))
            &&& members.contains(("mtime"@, json::JsonValue::Text(stat.mtime)))
            &&& members.contains(("atime"@, json::JsonValue::Text(stat.atime)))
            &&& members.contains(("ctime"@, json::JsonValue::Text(stat.ctime)))
            &&& server::object_answer(members).status == 200
            &&& server::object_answer(members).headers == seq![
                ("content-type"@, "application/json"@),
            ]
            &&& server::object_answer(members).body == json::object_text(members)
        }),
{
    let members = server::stat_members(stat);
    assert(members[0] == ("type"@, json::JsonValue::Text(stat.type_)));
    assert(members[1] == ("size"@, json::JsonValue::Number(stat.size)));
    assert(members[2] == ("mode"@, json::JsonValue::Number(stat.mode as u64)));
    assert(members[3] == ("mtime"@, json::JsonValue::Text(stat.mtime)));
    assert(members[4] == ("atime"@, json::JsonValue::Text(stat.atime)));
    assert(members[5] == ("ctime"@, json::JsonValue::Text(stat.ctime)));
}

/// The space for files is told in bytes: the number of blocks times their size, as far as that can
/// be counted.
pub proof fn space_is_told_in_bytes(space: SpaceMetadata)
    ensures
        ({
            let members = server::stats_members(space);
            let total = space.blocks as int * space.block_size as int;
            let available = space.blocks_available as int * space.block_size as int;
            &&& members.len() == 4
            &&& members[0].0 == "total_space"@
            &&& members[1].0 == "available_space"@
            &&& members[2] == ("files"@, json::JsonValue::Number(space.files))
            &&& members[3] == ("files_free"@, json::JsonValue::Number(space.files_free))
            &&& total <= u64::MAX ==> members[0].1 == json::JsonValue::Number(total as u64)
            &&& total > u64::MAX ==> members[0].1 == json::JsonValue::Number(u64::MAX)
            &&& available <= u64::MAX ==> members[1].1 == json::JsonValue::Number(available as u64)
            &&& available > u64::MAX ==> members[1].1 == json::JsonValue::Number(u64::MAX)
        }),
{
}

/// An entry is listed under its name, as a directory or a file, with its size, its nine permission
/// bits, and its points in time, which read back as they were.
pub proof fn entries_are_listed_as_they_are(entry: EntryMetadata)
    requires
        entry.dated(),
    ensures
        ({
            let listed = entry.listed();
            &&& listed.name == entry.name@
            &&& entry.is_dir ==> listed.type_ == "dir"@
            &&& !entry.is_dir ==> listed.type_ == "file"@
            &&& listed.size == entry.len
            &&& listed.mode == entry.mode % 512
            &&& calendar::seconds_of(listed.mtime) == entry.modified
            &&& calendar::seconds_of(listed.atime) == entry.accessed
            &&& calendar::seconds_of(listed.ctime) == entry.created
        }),
{
    let mode = entry.mode;
    assert(mode & 0o777 == mode % 512) by (bit_vector);
    calendar::iso8601_reads_back(entry.modified->0);
    calendar::iso8601_reads_back(entry.accessed->0);
    calendar::iso8601_reads_back(entry.created->0);
}

/// An entry can be told just where all its points in time are known.
pub proof fn entries_need_their_times(entry: EntryMetadata)
    ensures
        entry.dated() <==> !(entry.modified is None || entry.accessed is None || entry.created
            is None),
{
}

/// Only what exists and is a directory is listed; anything else is not found, and the message
/// shows the path.
pub proof fn only_directories_are_listed(shown: Seq<char>, there: bool, is_dir: bool)
    ensures
        fs::listing_refusal(shown, there, is_dir) is None <==> there && is_dir,
        !there ==> fs::listing_refusal(shown, there, is_dir) == Some(
            (ErrorCode::Enoent, "Directory does not exist: "@ + shown),
        ),
        there && !is_dir ==> fs::listing_refusal(shown, there, is_dir) == Some(
            (ErrorCode::Enoent, "Path is not a directory: "@ + shown),
        ),
{
}

/// Only what exists is renamed, and only to a name that is free.
pub proof fn renaming_needs_a_source_and_a_free_name(source: bool, destination: bool)
    ensures
        fs::rename_refusal(source, destination) is None <==> source && !destination,
        !source ==> (fs::rename_refusal(source, destination) matches Some((code, message)) && code
            == ErrorCode::Enoent && message == "Source not found"@),
        source && destination ==> (fs::rename_refusal(source, destination) matches Some(
            (code, message),
        ) && code == ErrorCode::Eexist && message == "Destination exists"@),
{
}

/// What lies below a directory has the path of the directory, a slash, and its own path; a slash
/// that is there already is not written twice.
pub proof fn path_below_starts_with_the_root(files: FileSystem, below: Seq<char>)
    requires
        below.len() > 0,
        below[0] != '/',
        fs::depth_of(below) is Some,
    ensures
        files.root().len() > 0 && files.root().last() != '/' ==> files.location_below(below) == Some(
            files.root() + seq!['/'] + below,
        ),
        files.root().len() == 0 || files.root().last() == '/' ==> files.location_below(below)
            == Some(files.root() + below),
        files.file_at(below) == files.location_below(below),
        fs::depth_of(below)->0 > 0 ==> files.entry_below(below) == files.location_below(below),
{
}

/// The empty path is the root: for a directory it is that of the root, for a file that with a
/// slash behind it, and it is never removed.
pub proof fn empty_path_is_the_root(files: FileSystem)
    ensures
        files.location_below(Seq::empty()) == Some(files.root()),
        files.root().len() > 0 && files.root().last() != '/' ==> files.file_at(Seq::empty())
            == Some(files.root() + seq!['/']),
        files.entry_below(Seq::empty()) is None,
{
    let none = Seq::<char>::empty();
    assert(text::parts(none, '/').drop_last() =~= Seq::<Seq<char>>::empty());
    assert(fs::steps_down(Seq::<Seq<char>>::empty()) == Some(0nat));
    assert(files.root() + seq!['/'] + none =~= files.root() + seq!['/']);
}

/// A path is as deep as the parts before it and those behind it together, where neither leaves.
/// Every name goes one down, `..` one up, and `.` and nothing stay.
pub proof fn depth_adds_up(before: Seq<char>, name: Seq<char>)
    requires
        !name.contains('/'),
        fs::depth_of(before) is Some,
    ensures
        ({
            let depth = fs::depth_of(before)->0;
            let path = before + seq!['/'] + name;
            &&& name == ".."@ && depth == 0 ==> fs::depth_of(path) is None
            &&& name == ".."@ && depth > 0 ==> fs::depth_of(path) == Some((depth - 1) as nat)
            &&& name.len() == 0 || name == "."@ ==> fs::depth_of(path) == Some(depth)
            &&& name.len() > 0 && name != "."@ && name != ".."@ ==> fs::depth_of(path) == Some(
                depth + 1,
            )
        }),
{
    reveal_strlit(".");
    reveal_strlit("..");
    let path = before + seq!['/'] + name;
    text::parts_of_two(before, '/', name);
    text::parts_of_two(name, '/', Seq::empty());
    let parts = text::parts(path, '/');
    assert(parts.drop_last() =~= text::parts(before, '/'));
    assert(parts.last() == name);
    assert("."@.len() == 1 && ".."@.len() == 2);
}

/// A path without a part `..` is never refused.
pub proof fn path_without_steps_up_is_served(files: FileSystem, below: Seq<char>)
    requires
        !text::parts(below, '/').contains(".."@),
    ensures
        fs::depth_of(below) is Some,
        files.location_below(below) is Some,
        files.file_at(below) is Some,
{
    lemma_no_steps_up(text::parts(below, '/'));
}

proof fn lemma_no_steps_up(parts: Seq<Seq<char>>)
    requires
        !parts.contains(".."@),
    ensures
        fs::steps_down(parts) is Some,
    decreases parts.len(),
{
    if parts.len() > 0 {
        let front = parts.drop_last();
        assert(parts.contains(parts.last()));
        assert(!front.contains(".."@)) by {
            if front.contains(".."@) {
                let i = choose|i: int| 0 <= i < front.len() && front[i] == ".."@;
                assert(parts[i] == ".."@);
            }
        }
        lemma_no_steps_up(front);
    }
}

/// The entry that is found is the first one with the name; none is found just where none has it.
pub proof fn first_entry_is_found(entries: Seq<EntryView>, name: Seq<char>)
    ensures
        match types::first_named(entries, name) {
            Some(entry) => exists|i: int|
                0 <= i < entries.len() && #[trigger] entries[i] == entry && entry.name == name
                    && forall|j: int| 0 <= j < i ==> (#[trigger] entries[j]).name != name,
            None => forall|j: int| 0 <= j < entries.len() ==> (#[trigger] entries[j]).name != name,
        },
    decreases entries.len(),
{
    if types::first_named(entries, name) is Some {
        let i = choose|i: int| types::first_named_at(entries, name, i);
        assert(types::first_named_at(entries, name, i));
        assert(entries[i] == types::first_named(entries, name)->0);
    } else {
        assert forall|j: int| 0 <= j < entries.len() implies (#[trigger] entries[j]).name != name by {
            if entries[j].name == name {
                lemma_some_first(entries, name, j);
            }
        }
    }
}

proof fn lemma_some_first(entries: Seq<EntryView>, name: Seq<char>, j: int)
    requires
        0 <= j < entries.len(),
        entries[j].name == name,
    ensures
        exists|i: int| types::first_named_at(entries, name, i),
    decreases j,
{
    if exists|k: int| 0 <= k < j && (#[trigger] entries[k]).name == name {
        let k = choose|k: int| 0 <= k < j && (#[trigger] entries[k]).name == name;
        lemma_some_first(entries, name, k);
    } else {
        assert(types::first_named_at(entries, name, j));
    }
}

/// A body of the wrong length is refused with a message that tells both lengths, and the span
/// where it is known.
pub proof fn wrong_length_is_told(expected: nat, received: nat, start: u64, end: u64, total: u64)
    ensures
        server::mismatch_answer(expected, received) == error::error_answer(
            ErrorCode::Einval,
            "Content length mismatch: expected "@ + text::decimal(expected) + " bytes but got "@
                + text::decimal(received),
            None,
            None,
        ),
        routes::span_mismatch_answer(expected, received, start, end, total) == error::error_answer(
            ErrorCode::Einval,
            "Content length mismatch: expected "@ + text::decimal(expected) + " bytes but got "@
                + text::decimal(received) + " (range: "@ + text::decimal(start as nat) + "-"@
                + text::decimal(end as nat) + "/"@ + text::decimal(total as nat) + ")"@,
            None,
            None,
        ),
        server::bad_range_answer() == error::error_answer(
            ErrorCode::Einval,
            "Invalid offset/length"@,
            None,
            None,
        ),
{
}

/// A path is answered by its location, or with a denied permission and the path in the message.
pub proof fn paths_are_located(
    result: Result<String, FsError>,
    path: Seq<char>,
    location: Seq<char>,
)
    ensures
        fs::located(result, path, Some(location)) ==> (result matches Ok(full_path) && full_path@
            == location),
        fs::located(result, path, None) ==> (result matches Err(error) && error.code
            == ErrorCode::Eacces && error.message@.len() >= path.len() && error.message@.skip(
            error.message@.len() - path.len(),
        ) == path),
{
    if fs::located(result, path, None) {
        let message = fs::denied_message(path);
        assert(message.skip(message.len() - path.len()) =~= path);
    }
}

/// The bytes that a read of a part hands out are those that were asked for, and the head of the
/// answer tells just these.
pub proof fn read_hands_out_what_was_asked(file: Seq<u8>, range: ByteRange)
    requires
        file.len() <= u64::MAX,
        range.start < file.len(),
        range.end is None || range.start <= range.end->0,
    ensures
        match range::bytes_of_range(range, file.len() as u64) {
            Some((first, last)) => {
                let sent = file.subrange(first as int, last + 1);
                &&& sent[0] == file[range.start as int]
                &&& body::pieces(sent).flatten() == sent
                &&& range.end is None ==> sent == file.skip(range.start as int)
                &&& range.end is Some && range.end->0 < file.len() ==> sent == file.subrange(
                    range.start as int,
                    range.end->0 + 1,
                )
                &&& range.end is Some && range.end->0 >= file.len() ==> sent == file.skip(
                    range.start as int,
                )
            },
            None => false,
        },
{
    let (first, last) = range::bytes_of_range(range, file.len() as u64)->0;
    let sent = file.subrange(first as int, last + 1);
    body::pieces_make_the_body(sent);
    if range.end is None || range.end->0 >= file.len() {
        assert(sent =~= file.skip(range.start as int));
    }
}

/// What is planned for a read is what was asked for: a part starts at the start of the range, ends
/// within it and within the file, and has all bytes between. A whole file is read whole. A bad
/// range, or one outside of the file, is refused, and so is a file that is not found.
pub proof fn plan_reads_the_range(
    plan: RangePlan,
    asked: RequestedRange,
    size: Result<u64, FsError>,
)
    requires
        server::planned(plan, asked, size),
    ensures
        match (size, asked) {
            (Err(error), _) => plan matches RangePlan::Refused(reply) && reply@.status
                == error.code.http_status(),
            (Ok(_), RequestedRange::Whole) => plan is Whole,
            (Ok(_), RequestedRange::Invalid) => plan matches RangePlan::Refused(reply)
                && reply@.status == 400,
            (Ok(size), RequestedRange::Bytes(range)) => if range.start < size && (range.end is None
                || range.start <= range.end->0) {
                plan matches RangePlan::Part { start, end, length } && start == range.start
                    && length == end - start + 1 && start <= end < size && (end == size - 1
                    || range.end == Some(end)) && (range.end is Some ==> end <= range.end->0)
            } else {
                plan matches RangePlan::Refused(reply) && reply@.status == 400
            },
        },
{
}

/// A read that succeeded is answered with the head for its bytes, and one that failed with the
/// status of the failure.
pub proof fn read_is_answered(
    head: Result<ReplyHead, Reply>,
    start: u64,
    end: u64,
    size: u64,
    outcome: ReadOutcome,
)
    requires
        start <= end < size,
    ensures
        server::whole_answered(head, outcome) ==> match outcome {
            ReadOutcome::Body { len } => head matches Ok(head) && head@.status == 200
                && text::u64_of(head@.headers[1].1) == Some(len as u64),
            ReadOutcome::Failed(error) => head matches Err(reply) && reply@.status
                == error.code.http_status(),
            ReadOutcome::Lost => head matches Err(reply) && reply@.status == 500,
        },
        server::part_answered(head, start, end, size, outcome) ==> match outcome {
            ReadOutcome::Body { len } => head matches Ok(head) && head@.status == 206
                && range::content_range_of(head@.headers[0].1) == Ok::<ContentRange, Seq<char>>(
                ContentRange::Span { start, end, total: size },
            ) && text::u64_of(head@.headers[2].1) == Some(len as u64),
            ReadOutcome::Failed(error) => head matches Err(reply) && reply@.status
                == error.code.http_status(),
            ReadOutcome::Lost => head matches Err(reply) && reply@.status == 500,
        },
{
    match outcome {
        ReadOutcome::Body { len } => {
            part_is_announced(start, end, size, len as u64);
            whole_is_announced(len as u64);
        },
        _ => {},
    }
}

/// A request with a goal moves the file to it; one with a goal that is no file is refused; and one
/// without is a write of the file of the request, as `Content-Range` says.
pub proof fn goal_decides_on_a_move(
    start: WriteStart,
    decision: WriteDecision,
    path: Seq<char>,
    headers: http::HeaderMap,
    goal: Seq<char>,
    len: nat,
)
    ensures
        server::requested_destination(headers) == Some(Some(goal)) && server::change_decided(
            start,
            "/file/"@ + encoding::percent_encoded(path),
            headers,
        ) ==> (start matches WriteStart::Rename { from, to } && from@ == "/file/"@ + path && to@
            == goal),
        server::requested_destination(headers) == Some(None::<Seq<char>>) && server::change_decided(
            start,
            path,
            headers,
        ) ==> (start matches WriteStart::Refused(reply) && reply@.status == 400),
        server::requested_destination(headers) is None && range::header_value(
            headers,
            "Content-Range"@,
        ) is None && server::change_decided(
            start,
            "/file/"@ + encoding::percent_encoded(path),
            headers,
        ) ==> (start matches WriteStart::Write { path: file, offset, expected, creates } && file@
            == "/file/"@ + path && offset == 0 && expected == 0 && creates),
        server::requested_destination(headers) is None && server::change_decided(
            start,
            path,
            headers,
        ) ==> server::write_decided(
            start,
            server::requested_file(path),
            range::header_value(headers, "Content-Range"@),
        ),
        server::requested_destination(headers) == Some(Some(goal)) && routes::change_decided(
            decision,
            encoding::percent_encoded(path),
            headers,
            len,
        ) ==> (decision matches WriteDecision::Rename { from, to } && from@ == "/file/"@ + path
            && to@ == goal),
        server::requested_destination(headers) == Some(None::<Seq<char>>) && routes::change_decided(
            decision,
            path,
            headers,
            len,
        ) ==> (decision matches WriteDecision::Refused(reply) && reply@.status == 400),
        server::requested_destination(headers) is None && routes::change_decided(
            decision,
            path,
            headers,
            len,
        ) ==> routes::decided(
            decision,
            "/file/"@ + server::decoded(path),
            range::header_value(headers, "Content-Range"@),
            len,
        ),
{
    encoded_path_is_the_path(path);
}

/// An operation that was done is answered so, and one that failed with the status of the failure.
pub proof fn outcomes_are_told(
    outcome: Result<(), FsError>,
    stat: Result<FileStat, FsError>,
    space: Result<SpaceMetadata, FsError>,
)
    ensures
        outcome is Ok ==> server::outcome_answer(outcome, server::created_answer()).status == 201,
        outcome is Ok ==> server::outcome_answer(outcome, server::done_answer()).status == 200,
        outcome matches Err(error) ==> server::outcome_answer(outcome, server::done_answer())
            == error::error_answer(error.code, error.message@, None, None)
            && server::outcome_answer(outcome, server::created_answer()) == error::error_answer(
            error.code,
            error.message@,
            None,
            None,
        ),
        stat matches Ok(stat) ==> server::stat_answer(Ok(stat)).status == 200 && server::stat_answer(
            Ok(stat),
        ).body == json::object_text(server::stat_members(stat@)),
        stat matches Err(error) ==> server::stat_answer(stat).status == error.code.http_status(),
        space matches Ok(space) ==> server::stats_answer(Ok(space)).status == 200
            && server::stats_answer(Ok(space)).body == json::object_text(
            server::stats_members(space),
        ),
        space matches Err(error) ==> server::stats_answer(space).status == error.code.http_status(),
{
}

/// A patch of attributes is taken as it is given, or refused.
pub proof fn patches_are_taken_as_given(
    update: Result<AttrUpdate, Reply>,
    patch: AttrPatch,
    secs: u64,
)
    ensures
        server::update_decided(update, None) ==> (update matches Err(reply) && reply@.status == 400),
        server::update_decided(update, Some(patch)) && update is Ok ==> update->Ok_0.mode
            == patch.mode && (patch.mtime is None <==> update->Ok_0.mtime is None) && (patch.atime
            is None <==> update->Ok_0.atime is None),
        server::update_decided(update, Some(patch)) && update is Ok && patch.mtime is Some
            && patch.mtime->0@ == calendar::iso8601(secs as nat) ==> update->Ok_0.mtime == Some(
            secs,
        ),
        server::update_decided(update, Some(patch)) && update is Ok && patch.atime is Some
            && patch.atime->0@ == calendar::iso8601(secs as nat) ==> update->Ok_0.atime == Some(
            secs,
        ),
        server::update_decided(update, Some(patch)) && update is Err ==> update->Err_0@.status
            == 400,
        server::update_decided(update, Some(patch)) && patch.mtime is None && patch.atime is None
            && (patch.mode is None || patch.mode->0 <= 0o7777) ==> update is Ok,
{
    calendar::iso8601_reads_back(secs);
}

/// A directory is listed with all its entries, in order, each as it is. What leaves the root is
/// denied, and what is no directory is not found.
pub proof fn directories_are_listed_whole(
    listing: Result<DirList, FsError>,
    location: Seq<char>,
    path: Seq<char>,
    exists: bool,
    is_dir: bool,
    entries: Seq<EntryMetadata>,
)
    ensures
        fs::listing_told(listing, None, path, exists, is_dir, entries) ==> (listing matches Err(
            error,
        ) && error.code == ErrorCode::Eacces),
        fs::listing_told(listing, Some(location), path, exists, is_dir, entries) && !(exists
            && is_dir) ==> (listing matches Err(error) && error.code == ErrorCode::Enoent),
        fs::listing_told(listing, Some(location), path, true, true, entries) && (forall|i: int|
            0 <= i < entries.len() ==> (#[trigger] entries[i]).modified is Some
                && entries[i].accessed is Some && entries[i].created is Some) ==> (
        listing matches Ok(list) && list@.len() == entries.len() && forall|i: int|
            0 <= i < entries.len() ==> (#[trigger] list@[i]).name == entries[i].name@
                && list@[i].size == entries[i].len && (list@[i].type_ == "dir"@
                <==> entries[i].is_dir)),
        fs::listing_told(listing, Some(location), path, true, true, entries) && (exists|i: int|
            0 <= i < entries.len() && !(#[trigger] entries[i]).dated()) ==> (listing matches Err(
            error,
        ) && error.code == ErrorCode::Eio),
{
    reveal_strlit("file");
    reveal_strlit("dir");
    assert("file"@.len() == 4 && "dir"@.len() == 3);
    if fs::listing_told(listing, Some(location), path, true, true, entries) && (forall|i: int|
        0 <= i < entries.len() ==> (#[trigger] entries[i]).modified is Some && entries[i].accessed
            is Some && entries[i].created is Some) {
        assert forall|i: int| 0 <= i < entries.len() implies (#[trigger] entries[i]).dated() by {}
    }
}

/// The attributes of one file are told as they are.
pub proof fn one_file_is_told_as_it_is(stat: Result<FileStat, FsError>, entry: EntryMetadata)
    requires
        fs::stat_told(stat, entry),
    ensures
        entry.modified is Some && entry.accessed is Some && entry.created is Some ==> (
        stat matches Ok(stat) && stat@.name == entry.name@ && stat@.size == entry.len && stat@.mode
            == entry.mode % 512 && (stat@.type_ == "dir"@ <==> entry.is_dir)
            && calendar::seconds_of(stat@.mtime) == entry.modified && calendar::seconds_of(
            stat@.atime,
        ) == entry.accessed && calendar::seconds_of(stat@.ctime) == entry.created),
        !(entry.modified is Some && entry.accessed is Some && entry.created is Some) ==> (
        stat matches Err(error) && error.code == ErrorCode::Eio && error.message@
            == "second time provided was later than self"@),
{
    reveal_strlit("file");
    reveal_strlit("dir");
    assert("file"@.len() == 4 && "dir"@.len() == 3);
    if entry.dated() {
        entries_are_listed_as_they_are(entry);
    }
}

/// What is seen from a directory under an absolute path is that path.
pub proof fn absolute_path_stands(base: Seq<char>, rest: Seq<char>)
    ensures
        fs::joined(base, seq!['/'] + rest) == seq!['/'] + rest,
{
}

/// A route is taken off a path where it stands alone or before a slash, and nowhere else: a name
/// that only begins like the route keeps its beginning.
pub proof fn route_is_a_whole_part(rest: Seq<char>)
    requires
        rest.len() > 0,
        rest[0] != '/',
    ensures
        fs::file_below_root("/file"@ + rest) == "file"@ + rest,
        fs::dir_below_root("/dir"@ + rest) == "dir"@ + rest,
        fs::attr_below_root("/attr"@ + rest) == "attr"@ + rest,
        fs::file_below_root("/file"@) == Seq::<char>::empty(),
        fs::dir_below_root("/dir"@) == Seq::<char>::empty(),
        fs::attr_below_root("/attr"@) == Seq::<char>::empty(),
        fs::file_below_root(rest) == rest,
        fs::dir_below_root(rest) == rest,
        fs::attr_below_root(rest) == rest,
{
    reveal_strlit("/");
    reveal_strlit("file");
    reveal_strlit("dir");
    reveal_strlit("attr");
    reveal_strlit("/file");
    reveal_strlit("/dir");
    reveal_strlit("/attr");
    assert("/file"@ =~= seq!['/'] + "file"@);
    assert("/dir"@ =~= seq!['/'] + "dir"@);
    assert("/attr"@ =~= seq!['/'] + "attr"@);
    lemma_route_kept("/file"@, "file"@, rest);
    lemma_route_kept("/dir"@, "dir"@, rest);
    lemma_route_kept("/attr"@, "attr"@, rest);
}

proof fn lemma_route_kept(route: Seq<char>, name: Seq<char>, rest: Seq<char>)
    requires
        route == seq!['/'] + name,
        name.len() > 0,
        name[0] != '/',
        rest.len() > 0,
        rest[0] != '/',
    ensures
        fs::below_route(route + rest, route) == name + rest,
        fs::below_route(route, route) == Seq::<char>::empty(),
        fs::below_route(rest, route) == rest,
{
    reveal_strlit("/");
    let slashed = route + seq!['/'];
    let path = route + rest;
    if slashed.is_prefix_of(path) {
        assert(path.subrange(0, slashed.len() as int)[route.len() as int] == '/');
        assert(path[route.len() as int] == rest[0]);
    }
    assert(path.len() != route.len());
    assert(path.subrange(0, 1) =~= "/"@);
    assert(path.skip(1) =~= name + rest);
    assert((name + rest)[0] == name[0]);
    if "/"@.is_prefix_of(name + rest) {
        assert((name + rest).subrange(0, 1)[0] == '/');
    }
    assert(text::trim_prefixes(name + rest, "/"@) == name + rest);
    assert(text::trim_prefixes(path, "/"@) == text::trim_prefixes(path.skip(1), "/"@));
    assert(route.skip(route.len() as int) =~= Seq::<char>::empty());
    if slashed.is_prefix_of(rest) {
        assert(rest.subrange(0, slashed.len() as int)[0] == '/');
    }
    if "/"@.is_prefix_of(rest) {
        assert(rest.subrange(0, 1)[0] == '/');
    }
}

} // verus!
