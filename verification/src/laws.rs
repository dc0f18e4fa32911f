//! What holds of the client and the server together.

use crate::body;
use crate::body::WriterView;
use crate::calendar::Timestamp;
use crate::client;
use crate::client::{AttrChanges, ClientView, CreateStep, Errno, FileAttr, FileType};
use crate::encoding;
use crate::error;
use crate::error::ErrorCode;
use crate::fs;
use crate::fs::{EntryMetadata, FileSystem};
use crate::http as server;
use crate::http::Route;
use crate::json;
use crate::range;
use crate::range::{ContentRange, RequestedRange};
use crate::request;
use crate::routes;
use crate::routes::WriteDecision;
use crate::text;
use crate::types::EntryView;
use vstd::prelude::*;

verus! {

/// A read gives back what a write wrote. The client's requests to write and to read lead the
/// server to the same file. The server reads the offset and the length of the write as the client
/// sent them; however the body comes, after it was written the file holds it at that offset, and
/// the write is answered as done. A read of the same extent then means just these bytes, which
/// the pieces of the answer make up.
pub proof fn read_gives_back_write(
    address: (Seq<char>, u16),
    path: Seq<char>,
    file: Seq<u8>,
    offset: u64,
    contents: Seq<u8>,
    chunks: Seq<Seq<u8>>,
    creates: bool,
)
    requires
        contents.len() > 0,
        offset + contents.len() <= u64::MAX,
        file.len() <= u64::MAX,
        chunks.flatten() == contents,
    ensures
        ({
            let len = contents.len();
            let write = request::write_request_of(address, path, offset, len);
            let read = request::read_request_of(address, path, offset, len);
            let start = WriterView::at(offset as nat, creates);
            let written = body::after_writes(file, start.all_writes(chunks));
            let last = offset + len - 1;
            &&& server::requested_file(write.path) == server::requested_file(read.path)
            &&& write.headers[1].0 == "Content-Range"@
            &&& range::write_extent(Some(write.headers[1].1)) == Ok::<
                (Option<u64>, Option<u64>),
                Seq<char>,
            >((Some(offset), Some(len as u64)))
            &&& written == body::overwritten(file, offset as nat, contents)
            &&& server::written_answer(len, len) == server::done_answer()
            &&& written.len() <= u64::MAX
            &&& read.headers[1].0 == "Range"@
            &&& range::range_of(read.headers[1].1) matches RequestedRange::Bytes(range)
                && range::bytes_of_range(range, written.len() as u64) == Some(
                (offset, last as u64),
            )
            &&& body::pieces(written.subrange(offset as int, last + 1)).flatten() == contents
        }),
{
    let start = WriterView::at(offset as nat, creates);
    let written = body::after_writes(file, start.all_writes(chunks));
    range::write_extent_reads_back(offset, contents.len());
    body::writes_make_the_body(file, offset as nat, creates, chunks);
    body::written_bytes_stand(file, offset as nat, contents);
    range::range_reads_back(offset, contents.len());
    range::range_means_requested_bytes(offset, contents.len(), written.len() as u64);
    body::pieces_make_the_body(contents);
}

/// A write changes no byte outside of its extent, and makes no file shorter.
pub proof fn write_leaves_rest(file: Seq<u8>, offset: nat, creates: bool, chunks: Seq<Seq<u8>>)
    ensures
        ({
            let start = WriterView::at(offset, creates);
            let written = body::after_writes(file, start.all_writes(chunks));
            let end = offset + chunks.flatten().len();
            &&& written.len() >= file.len()
            &&& forall|i: int|
                0 <= i < file.len() && !(offset <= i < end) ==> #[trigger] written[i] == file[i]
        }),
{
    body::writes_make_the_body(file, offset, creates, chunks);
}

/// However the body of a write comes, the same writes are made, and the file ends up the same.
pub proof fn arrival_does_not_matter(
    file: Option<Seq<u8>>,
    offset: nat,
    creates: bool,
    chunks: Seq<Seq<u8>>,
    others: Seq<Seq<u8>>,
)
    requires
        chunks.flatten() == others.flatten(),
    ensures
        ({
            let start = WriterView::at(offset, creates);
            &&& start.all_writes(chunks) == start.all_writes(others)
            &&& body::file_after(file, start.all_writes(chunks)) == body::file_after(
                file,
                start.all_writes(others),
            )
            &&& chunks.flatten().len() > 0 ==> start.all_writes(chunks) == body::writes_of(
                offset,
                chunks.flatten(),
            )
        }),
{
    body::writes_depend_on_body(offset, creates, chunks);
    body::writes_depend_on_body(offset, creates, others);
}

/// A write that is refused because its body is missing has touched no file: a span of a file that
/// is not empty is no creation, so an empty body makes no write.
pub proof fn missing_body_leaves_no_trace(
    value: Seq<char>,
    start: u64,
    end: u64,
    total: u64,
    chunks: Seq<Seq<u8>>,
    file: Option<Seq<u8>>,
)
    requires
        range::content_range_of(value) == Ok::<ContentRange, Seq<char>>(
            ContentRange::Span { start, end, total },
        ),
        total > 0,
        chunks.flatten().len() == 0,
    ensures
        ({
            let creates = range::is_creation(Some(value));
            let writes = WriterView::at(start as nat, creates).all_writes(chunks);
            let expected = range::span_length(start, end, total);
            &&& writes.len() == 0
            &&& body::file_after(file, writes) == file
            &&& expected > 0 ==> server::written_answer(expected, 0) == server::mismatch_answer(
                expected,
                0,
            )
        }),
{
    body::empty_body_is_written(start as nat, false, chunks);
}

/// A server that has the whole body of a write takes a write of the client for what it is. A
/// write of nothing is taken so at the start of a file only.
pub proof fn client_write_is_accepted(
    decision: WriteDecision,
    file: Seq<char>,
    offset: u64,
    len: nat,
)
    requires
        offset + len <= u64::MAX,
        len > 0 || offset == 0,
        routes::decided(decision, file, Some(range::write_range_text(offset, len)), len),
    ensures
        decision matches WriteDecision::Write { path, offset: o } && path@ == file && o == offset,
{
    let last = if len == 0 {
        offset
    } else {
        (offset + len - 1) as u64
    };
    range::content_range_reads_back(offset, last, (offset + len) as u64);
}

/// A server that has the whole body of a write takes a truncation by the client for what it is.
pub proof fn client_truncation_is_accepted(decision: WriteDecision, file: Seq<char>, size: u64)
    requires
        routes::decided(decision, file, Some(range::truncate_range_text(size)), 0),
    ensures
        decision matches WriteDecision::Truncate { path, size: s } && path@ == file && s == size,
{
    range::truncation_reads_back(size);
}

/// Every request of the client is routed to what it is meant for.
pub proof fn requests_reach_their_handlers(
    address: (Seq<char>, u16),
    path: Seq<char>,
    offset: u64,
    len: nat,
)
    requires
        path.len() > 0 && path[0] == '/',
    ensures
        ({
            let read = request::read_request_of(address, path, offset, len);
            server::route_of(read.method, read.path) == Route::ReadFile
        }),
        ({
            let write = request::write_request_of(address, path, offset, len);
            server::route_of(write.method, write.path) == Route::WriteFile
        }),
        ({
            let truncate = request::truncate_request_of(address, path, offset);
            server::route_of(truncate.method, truncate.path) == Route::WriteFile
        }),
        ({
            let list = request::list_request_of(address, path);
            server::route_of(list.method, list.path) == Route::ListDirectory
        }),
{
    reveal_strlit("/file/");
    reveal_strlit("/file");
    reveal_strlit("/dir/");
    reveal_strlit("/dir");
    reveal_strlit("GET");
    reveal_strlit("PATCH");
    assert("GET"@.len() == 3 && "PATCH"@.len() == 5);
    let url = request::file_url(path);
    assert(url.subrange(0, "/file/"@.len() as int) =~= "/file/"@);
    let truncate = "/file"@ + path;
    assert(truncate.subrange(0, "/file/"@.len() as int) =~= "/file/"@);
    let list = "/dir"@ + path;
    assert(list.subrange(0, "/dir/"@.len() as int) =~= "/dir/"@);
    assert("/file/"@.is_prefix_of(list) ==> list.subrange(0, 6)[1] == 'f');
}

/// Every request of the protocol is routed to what it is meant for, whatever the path.
pub proof fn documented_requests_are_routed(path: Seq<char>)
    ensures
        server::route_of("GET"@, "/file/"@ + path) == Route::ReadFile,
        server::route_of("PATCH"@, "/file/"@ + path) == Route::WriteFile,
        server::route_of("PUT"@, "/file/"@ + path) == Route::CreateFile,
        server::route_of("DELETE"@, "/file/"@ + path) == Route::DeleteFile,
        server::route_of("GET"@, "/dir/"@ + path) == Route::ListDirectory,
        server::route_of("PUT"@, "/dir/"@ + path) == Route::CreateDirectory,
        server::route_of("DELETE"@, "/dir/"@ + path) == Route::RemoveDirectory,
        server::route_of("GET"@, "/attr/"@ + path) == Route::GetAttributes,
        server::route_of("PATCH"@, "/attr/"@ + path) == Route::SetAttributes,
        server::route_of("GET"@, "/fs/stats"@) == Route::Stats,
{
    reveal_strlit("/file/");
    reveal_strlit("/dir/");
    reveal_strlit("/attr/");
    reveal_strlit("/fs/stats");
    reveal_strlit("GET");
    reveal_strlit("PUT");
    reveal_strlit("PATCH");
    reveal_strlit("DELETE");
    assert("GET"@.len() == 3 && "PUT"@.len() == 3 && "PATCH"@.len() == 5 && "DELETE"@.len() == 6);
    assert("GET"@[0] == 'G' && "PUT"@[0] == 'P');
    let file = "/file/"@ + path;
    let dir = "/dir/"@ + path;
    let attr = "/attr/"@ + path;
    let stats = "/fs/stats"@;
    assert(file.subrange(0, 6) =~= "/file/"@);
    assert(dir.subrange(0, 5) =~= "/dir/"@);
    assert(attr.subrange(0, 6) =~= "/attr/"@);
    assert("/file/"@.is_prefix_of(dir) ==> dir.subrange(0, 6)[1] == 'f');
    assert("/file/"@.is_prefix_of(attr) ==> attr.subrange(0, 6)[1] == 'f');
    assert("/dir/"@.is_prefix_of(attr) ==> attr.subrange(0, 5)[1] == 'd');
    assert("/file/"@.is_prefix_of(stats) ==> stats.subrange(0, 6)[2] == 'i');
    assert("/dir/"@.is_prefix_of(stats) ==> stats.subrange(0, 5)[1] == 'd');
    assert("/attr/"@.is_prefix_of(stats) ==> stats.subrange(0, 6)[1] == 'a');
}

/// A request on a path without `%` leads to just that path below the root, also where the path
/// starts like the route.
pub proof fn plain_request_leads_to_its_path(files: FileSystem, path: Seq<char>)
    requires
        !path.contains('%'),
        !"/"@.is_prefix_of(path),
    ensures
        files.file_location(server::requested_file("/file/"@ + path)) == files.file_at(path),
        files.dir_location(server::requested_dir("/dir/"@ + path)) == files.location_below(path),
        files.attr_location(server::requested_attr("/attr/"@ + path)) == files.location_below(path),
{
    encoding::plain_text_stays(path);
    assert(text::trim_prefixes(path, "/"@) == path);
    let file = "/file/"@ + path;
    let dir = "/dir/"@ + path;
    let attr = "/attr/"@ + path;
    assert(file.subrange(0, "/file/"@.len() as int) =~= "/file/"@);
    assert(file.skip("/file/"@.len() as int) =~= path);
    assert(dir.subrange(0, "/dir/"@.len() as int) =~= "/dir/"@);
    assert(dir.skip("/dir/"@.len() as int) =~= path);
    assert(attr.subrange(0, "/attr/"@.len() as int) =~= "/attr/"@);
    assert(attr.skip("/attr/"@.len() as int) =~= path);
    file_stands_below_root(files, path);
    dir_stands_below_root(files, path);
    attributes_stand_below_root(files, path);
}

/// A file that the client created is the file that its reads, writes and truncations are about.
/// Excepted are names that decode to another text, since they are sent encoded to create the file
/// but as they are later, and those that start with a slash.
pub proof fn created_file_is_read_and_written(name: Seq<char>)
    requires
        server::decoded(name) == name,
        !"/"@.is_prefix_of(name),
    ensures
        server::requested_file(request::file_url(encoding::percent_encoded(name))) == "/file/"@
            + name,
        server::requested_file(request::file_url(client::root_path(name))) == "/file/"@ + name,
        server::requested_file("/file"@ + client::root_path(name)) == "/file/"@ + name,
{
    reveal_strlit("/");
    reveal_strlit("/file");
    reveal_strlit("/file/");
    let path = client::root_path(name);
    let encoded = encoding::percent_encoded(name);
    encoding::encoded_text_reads_back(name);
    if encoded.len() > 0 {
        assert(encoded[0] != '/');
        assert("/"@.is_prefix_of(encoded) ==> encoded.subrange(0, 1)[0] == '/');
    }
    assert(text::trim_prefixes(encoded, "/"@) == encoded);
    request::url_names_file(encoded);
    if name.len() > 0 {
        assert(name[0] != '/') by {
            assert(name.subrange(0, 1) =~= seq![name[0]]);
            assert("/"@ =~= seq!['/']);
        }
    }
    assert(text::trim_prefixes(name, "/"@) == name);
    assert(path.subrange(0, 1) =~= "/"@);
    assert(path.skip(1) =~= name);
    assert(text::trim_prefixes(path, "/"@) == name);
    request::url_names_file(path);
    assert("/file"@ + path =~= request::file_url(path));
}

/// The request by which the client creates a file makes an empty file, and is answered as done.
/// A file that is there already stays as it is.
pub proof fn creation_makes_empty_file(
    address: (Seq<char>, u16),
    path: Seq<char>,
    chunks: Seq<Seq<u8>>,
    known: Seq<u8>,
)
    requires
        chunks.flatten() == Seq::<u8>::empty(),
    ensures
        ({
            let create = request::write_request_of(address, path, 0, 0);
            let creates = range::is_creation(Some(create.headers[1].1));
            let writes = WriterView::at(0, creates).all_writes(chunks);
            &&& create.headers[1].0 == "Content-Range"@
            &&& creates
            &&& range::write_extent(Some(create.headers[1].1)) == Ok::<
                (Option<u64>, Option<u64>),
                Seq<char>,
            >((Some(0u64), Some(0u64)))
            &&& body::file_after(None, writes) == Some(Seq::<u8>::empty())
            &&& body::file_after(Some(known), writes) == Some(known)
            &&& server::written_answer(0, 0) == server::done_answer()
        }),
{
    range::write_extent_reads_back(0, 0);
    range::content_range_reads_back(0, 0, 0);
    body::empty_body_is_written(0, true, chunks);
    body::writes_make_the_body(Seq::empty(), 0, true, chunks);
    body::writes_make_the_body(known, 0, true, chunks);
}

/// The client understands every entry that the server lists: it takes a directory for a
/// directory and anything else for a file, and keeps the size and the permissions.
pub proof fn listed_entries_are_understood(
    entry: EntryMetadata,
    view: ClientView,
    now: Timestamp,
)
    requires
        view.wf(),
        view.next_inode < u64::MAX,
        view.finds(client::root_path(entry.name@), None),
    ensures
        match view.lookup_step(Some(entry.listed()), None, now).1 {
            Ok(attr) => {
                &&& attr.kind == if entry.is_dir {
                    FileType::Directory
                } else {
                    FileType::RegularFile
                }
                &&& attr.size == entry.len
                &&& attr.perm == entry.mode & 0o777
            },
            Err(_) => false,
        },
{
    reveal_strlit("file");
    reveal_strlit("dir");
    assert("file"@.len() == 4 && "dir"@.len() == 3);
    let mode = entry.mode;
    assert(mode & 0o777 <= 0o777) by (bit_vector);
}

/// A request that is refused is answered with a status that tells so, and with an object that
/// holds the message under `error`.
pub proof fn refusals_are_told(
    code: ErrorCode,
    message: Seq<char>,
    debug: Option<Seq<char>>,
    path: Option<Seq<char>>,
)
    ensures
        !request::is_success(error::error_answer(code, message, debug, path).status),
        error::error_answer(code, message, debug, path).body == json::object_text(
            error::error_members(code, message, debug, path),
        ),
        error::error_members(code, message, debug, path).contains(
            ("error"@, json::JsonValue::Text(message)),
        ),
        error::error_members(code, message, debug, path).contains(
            ("status"@, json::JsonValue::Text("error"@)),
        ),
        error::error_members(code, message, debug, path).contains(
            ("code"@, json::JsonValue::Text(code.name_text())),
        ),
{
    let members = error::error_members(code, message, debug, path);
    assert(members[0] == ("status"@, json::JsonValue::Text("error"@)));
    assert(members[1] == ("error"@, json::JsonValue::Text(message)));
    assert(members[2] == ("code"@, json::JsonValue::Text(code.name_text())));
}

/// A request on `/file/` and a path leads to that path below the root, whatever the path. It is
/// refused if it leaves the root.
pub proof fn file_stands_below_root(files: FileSystem, path: Seq<char>)
    ensures
        files.file_location("/file/"@ + path) == files.file_at(text::trim_prefixes(path, "/"@)),
{
    lemma_below_route("/file"@, path);
    reveal_strlit("/file");
    reveal_strlit("/file/");
    assert("/file/"@ =~= "/file"@ + seq!['/']);
}

/// A request on `/dir/` and a path leads to that path below the root, whatever the path. It is
/// refused if it leaves the root.
pub proof fn dir_stands_below_root(files: FileSystem, path: Seq<char>)
    ensures
        files.dir_location("/dir/"@ + path) == files.location_below(
            text::trim_prefixes(path, "/"@),
        ),
{
    lemma_below_route("/dir"@, path);
    reveal_strlit("/dir");
    reveal_strlit("/dir/");
    assert("/dir/"@ =~= "/dir"@ + seq!['/']);
}

/// A request on `/attr/` and a path leads to that path below the root, whatever the path. It is
/// refused if it leaves the root.
pub proof fn attributes_stand_below_root(files: FileSystem, path: Seq<char>)
    ensures
        files.attr_location("/attr/"@ + path) == files.location_below(
            text::trim_prefixes(path, "/"@),
        ),
{
    lemma_below_route("/attr"@, path);
    reveal_strlit("/attr");
    reveal_strlit("/attr/");
    assert("/attr/"@ =~= "/attr"@ + seq!['/']);
}

proof fn lemma_below_route(route: Seq<char>, path: Seq<char>)
    ensures
        fs::below_route(route + seq!['/'] + path, route) == text::trim_prefixes(path, "/"@),
{
    reveal_strlit("/");
    let start = route + seq!['/'];
    let whole = start + path;
    let rest = seq!['/'] + path;
    assert(whole.subrange(0, start.len() as int) =~= start);
    assert(whole.skip(route.len() as int) =~= rest);
    assert(rest.subrange(0, 1) =~= "/"@);
    assert(rest.skip(1) =~= path);
}

/// Where a walk along the parts of a path arrives: the names of the directories on the way, where
/// `..` takes back the one before it.
pub open spec fn arrived(from: Seq<Seq<char>>, parts: Seq<Seq<char>>) -> Seq<Seq<char>>
    decreases parts.len(),
{
    if parts.len() == 0 {
        from
    } else {
        let before = arrived(from, parts.drop_last());
        let last = parts.last();
        if last.len() == 0 || last == "."@ {
            before
        } else if last == ".."@ && before.len() > 0 && before.last() != ".."@ {
            before.drop_last()
        } else {
            before.push(last)
        }
    }
}

/// Where a path leads, as the names of the directories on the way.
pub open spec fn destination(path: Seq<char>) -> Seq<Seq<char>> {
    arrived(Seq::empty(), text::parts(path, '/'))
}

proof fn lemma_parts_of_two(a: Seq<char>, b: Seq<char>)
    ensures
        text::parts(b, '/').len() > 0,
        text::parts(a + seq!['/'] + b, '/') == text::parts(a, '/') + text::parts(b, '/'),
    decreases b.len(),
{
    let whole = a + seq!['/'] + b;
    if b.len() == 0 {
        assert(whole.drop_last() =~= a);
        assert(text::parts(a, '/') + text::parts(b, '/') =~= text::parts(a, '/').push(Seq::empty()));
    } else {
        let shorter = b.drop_last();
        assert(whole.drop_last() =~= a + seq!['/'] + shorter);
        lemma_parts_of_two(a, shorter);
        let before = text::parts(a, '/') + text::parts(shorter, '/');
        assert(whole.last() == b.last());
        if b.last() == '/' {
            assert(before.push(Seq::empty()) =~= text::parts(a, '/') + text::parts(b, '/'));
        } else {
            assert(before.last() == text::parts(shorter, '/').last());
            assert(before.drop_last().push(before.last().push(b.last())) =~= text::parts(a, '/')
                + text::parts(b, '/'));
        }
    }
}

proof fn lemma_arrived_in_two(from: Seq<Seq<char>>, a: Seq<Seq<char>>, b: Seq<Seq<char>>)
    ensures
        arrived(from, a + b) == arrived(arrived(from, a), b),
    decreases b.len(),
{
    if b.len() == 0 {
        assert(a + b =~= a);
    } else {
        assert((a + b).drop_last() =~= a + b.drop_last());
        lemma_arrived_in_two(from, a, b.drop_last());
    }
}

proof fn lemma_walk_stays(from: Seq<Seq<char>>, parts: Seq<Seq<char>>)
    requires
        fs::steps_down(parts) is Some,
    ensures
        arrived(from, parts).len() == from.len() + fs::steps_down(parts)->0,
        from.is_prefix_of(arrived(from, parts)),
        forall|i: int|
            from.len() <= i < arrived(from, parts).len() ==> #[trigger] arrived(from, parts)[i]
                != ".."@,
    decreases parts.len(),
{
    if parts.len() > 0 {
        lemma_walk_stays(from, parts.drop_last());
        let before = arrived(from, parts.drop_last());
        let after = arrived(from, parts);
        reveal_strlit("..");
        reveal_strlit(".");
        assert(after.len() >= from.len());
        assert(before.subrange(0, from.len() as int) =~= from);
        assert(after.subrange(0, from.len() as int) =~= from);
    } else {
        assert(from.subrange(0, from.len() as int) =~= from);
    }
}

proof fn lemma_location_lies_below(files: FileSystem, below: Seq<char>)
    requires
        !"/"@.is_prefix_of(below),
        files.location_below(below) is Some,
    ensures
        destination(files.root()).is_prefix_of(destination(files.location_below(below)->0)),
        destination(files.location_below(below)->0).len() == destination(files.root()).len()
            + fs::depth_of(below)->0,
        destination(files.file_at(below)->0) == destination(files.location_below(below)->0),
{
    reveal_strlit("/");
    let root = files.root();
    let nothing = Seq::<Seq<char>>::empty();
    let way = destination(root);
    let parts = text::parts(below, '/');
    lemma_walk_stays(way, parts);
    if below.len() > 0 {
        assert(below[0] != '/') by {
            assert(below.subrange(0, 1) =~= seq![below[0]]);
            assert("/"@ =~= seq!['/']);
        }
    }
    assert(arrived(nothing, nothing) == nothing);
    if below.len() == 0 {
        assert(parts.drop_last() =~= nothing);
        assert(fs::steps_down(nothing) == Some(0nat));
        assert(way.subrange(0, way.len() as int) =~= way);
        if root.len() == 0 || root.last() == '/' {
            assert(root + below =~= root);
        } else {
            lemma_parts_of_two(root, below);
            lemma_arrived_in_two(nothing, text::parts(root, '/'), parts);
            assert(arrived(way, nothing) == way);
        }
    } else if root.len() == 0 {
        assert(text::parts(root, '/').drop_last() =~= nothing);
        assert(way =~= nothing);
        assert(root + below =~= below);
    } else if root.last() == '/' {
        let front = root.drop_last();
        lemma_parts_of_two(front, below);
        assert(front + seq!['/'] + below =~= root + below);
        lemma_arrived_in_two(nothing, text::parts(front, '/'), parts);
        assert(text::parts(root, '/') == text::parts(front, '/').push(Seq::empty()));
        assert(text::parts(root, '/').drop_last() =~= text::parts(front, '/'));
    } else {
        lemma_parts_of_two(root, below);
        lemma_arrived_in_two(nothing, text::parts(root, '/'), parts);
    }
}

proof fn lemma_no_slash_left(s: Seq<char>)
    ensures
        !"/"@.is_prefix_of(text::trim_prefixes(s, "/"@)),
    decreases s.len(),
{
    reveal_strlit("/");
    if "/"@.is_prefix_of(s) {
        lemma_no_slash_left(s.skip(1));
    }
}

/// The way to `location` starts with the way to the root.
pub open spec fn lies_within(files: FileSystem, location: Option<Seq<char>>) -> bool {
    location is Some ==> destination(files.root()).is_prefix_of(destination(location->0))
}

/// The way to `location` starts with the way to the root, and goes on.
pub open spec fn lies_below(files: FileSystem, location: Option<Seq<char>>) -> bool {
    location is Some ==> destination(files.root()).is_prefix_of(destination(location->0))
        && destination(files.root()).len() < destination(location->0).len()
}

/// Whatever path is requested, the location to which it leads lies within the root: it is either
/// refused, or the way to it starts with the way to the root. What is removed or renamed is never
/// the root itself.
pub proof fn locations_lie_below_root(files: FileSystem, path: Seq<char>)
    ensures
        lies_within(files, files.file_location(path)),
        lies_within(files, files.dir_location(path)),
        lies_within(files, files.attr_location(path)),
        lies_below(files, files.entry_below(fs::file_below_root(path))),
        lies_below(files, files.entry_below(fs::dir_below_root(path))),
{
    lemma_request_lies_below(files, path, "/file"@);
    lemma_request_lies_below(files, path, "/dir"@);
    lemma_request_lies_below(files, path, "/attr"@);
}

proof fn lemma_request_lies_below(files: FileSystem, path: Seq<char>, route: Seq<char>)
    ensures
        lies_within(files, files.location_below(fs::below_route(path, route))),
        lies_within(files, files.file_at(fs::below_route(path, route))),
        lies_below(files, files.entry_below(fs::below_route(path, route))),
{
    let below = fs::below_route(path, route);
    let rest = if path == route || (route + seq!['/']).is_prefix_of(path) {
        path.skip(route.len() as int)
    } else {
        path
    };
    lemma_no_slash_left(rest);
    if files.location_below(below) is Some {
        lemma_location_lies_below(files, below);
    }
    if below.len() == 0 {
        assert(text::parts(below, '/').drop_last() =~= Seq::<Seq<char>>::empty());
        assert(fs::steps_down(Seq::<Seq<char>>::empty()) == Some(0nat));
    }
}

/// A path that climbs out of the root by its first step is refused, whatever follows.
pub proof fn way_out_is_refused(files: FileSystem, rest: Seq<char>)
    ensures
        files.file_location("/file/../"@ + rest) is None,
        files.dir_location("/dir/../"@ + rest) is None,
{
    reveal_strlit("/");
    reveal_strlit("..");
    reveal_strlit(".");
    reveal_strlit("/file/");
    reveal_strlit("/file/../");
    reveal_strlit("/dir/");
    reveal_strlit("/dir/../");
    let out = ".."@ + seq!['/'] + rest;
    assert("/file/../"@ + rest =~= "/file/"@ + out);
    assert("/dir/../"@ + rest =~= "/dir/"@ + out);
    file_stands_below_root(files, out);
    dir_stands_below_root(files, out);
    assert("/"@.is_prefix_of(out) ==> out.subrange(0, 1)[0] == '/');
    assert(text::trim_prefixes(out, "/"@) == out);
    lemma_parts_of_two(".."@, rest);
    reveal_with_fuel(text::parts, 4);
    assert(".."@.drop_last().drop_last() =~= Seq::<char>::empty());
    let up = text::parts(".."@, '/');
    assert(up =~= seq![".."@]) by {
        assert(".."@.drop_last() =~= seq!['.']);
        assert(seq!['.'].drop_last() =~= Seq::<char>::empty());
        assert(text::parts(seq!['.'], '/') =~= seq![seq!['.']]);
        assert(seq!['.'].push('.') =~= ".."@);
    }
    assert(up.drop_last() =~= Seq::<Seq<char>>::empty());
    assert(fs::steps_down(Seq::<Seq<char>>::empty()) == Some(0nat));
    assert(".."@.len() == 2 && "."@.len() == 1);
    assert(fs::steps_down(up) is None);
    fs::left_for_good(up, text::parts(rest, '/'));
}

/// The listing of the root directory, which the client asks for, is that of the served directory.
pub proof fn root_listing_is_of_root(files: FileSystem, address: (Seq<char>, u16))
    ensures
        files.dir_location(server::requested_dir(request::list_request_of(address, "/"@).path))
            == Some(files.root()),
{
    reveal_strlit("/");
    reveal_strlit("/dir");
    reveal_strlit("/dir/");
    let nothing = Seq::<char>::empty();
    let url = "/dir"@ + "/"@;
    assert(url =~= "/dir/"@);
    assert(url.subrange(0, 5) =~= "/dir/"@);
    assert(url.skip(5) =~= nothing);
    encoding::plain_text_stays(nothing);
    dir_stands_below_root(files, nothing);
    assert(text::parts(nothing, '/').drop_last() =~= Seq::<Seq<char>>::empty());
    assert(fs::steps_down(Seq::<Seq<char>>::empty()) == Some(0nat));
    assert(text::trim_prefixes(nothing, "/"@) == nothing);
}

/// `after` knows the paths that `before` knows, and has handed out no fewer numbers.
pub open spec fn keeps_paths(before: ClientView, after: ClientView) -> bool {
    &&& after.next_inode >= before.next_inode
    &&& forall|ino: u64| #[trigger]
        before.paths.contains_key(ino) ==> after.paths.contains_key(ino) && after.paths[ino]
            == before.paths[ino]
}

/// Whatever the client does, it never changes the path of an inode that it knows, and hands out
/// no number twice.
pub proof fn inodes_keep_their_paths(
    view: ClientView,
    listed: bool,
    found: Option<u64>,
    name: Seq<char>,
    mode: u32,
    flags: i32,
    entry: Option<EntryView>,
    ino: u64,
    changes: AttrChanges,
    done: bool,
    attr: FileAttr,
    now: Timestamp,
)
    requires
        view.wf(),
        view.next_inode < u64::MAX,
    ensures
        keeps_paths(view, view.create_step(listed, found, name, mode, flags, now).0),
        keeps_paths(view, view.create_end(attr, done).0),
        keeps_paths(view, view.lookup_step(entry, found, now).0),
        keeps_paths(view, view.getattr_step(ino, entry).0),
        keeps_paths(view, view.setattr_step(ino, changes, done, now).0),
{
}

/// A file that is created or looked up gets a number that no other file has had, unless it has
/// one already.
pub proof fn new_inodes_are_fresh(
    view: ClientView,
    listed: bool,
    found: Option<u64>,
    name: Seq<char>,
    mode: u32,
    flags: i32,
    entry: EntryView,
    now: Timestamp,
)
    requires
        view.wf(),
        view.next_inode < u64::MAX,
    ensures
        match view.create_step(listed, found, name, mode, flags, now) {
            (after, CreateStep::WriteEmpty(attr)) => {
                &&& !view.attrs.contains_key(attr.ino)
                &&& !view.paths.contains_key(attr.ino)
                &&& after.attrs[attr.ino] == attr
                &&& after.paths[attr.ino] == client::root_path(name)
                &&& after.file_refusal(attr.ino) is None
            },
            (after, step) => after == view && step == CreateStep::Created(view.attrs[found->0]),
        },
        match view.lookup_step(Some(entry), found, now) {
            (after, Ok(attr)) => {
                ||| found == Some(attr.ino) && view.attrs.contains_key(attr.ino)
                ||| !view.attrs.contains_key(attr.ino) && !view.paths.contains_key(attr.ino)
            },
            (after, Err(_)) => after == view,
        },
{
}

/// Where the server does not make a file, the client forgets the inode that it had for it: it
/// knows the same inodes as before.
pub proof fn failed_creation_leaves_no_inode(
    view: ClientView,
    listed: bool,
    found: Option<u64>,
    name: Seq<char>,
    mode: u32,
    flags: i32,
    now: Timestamp,
)
    requires
        view.wf(),
        view.next_inode < u64::MAX,
        view.create_step(listed, found, name, mode, flags, now).1 is WriteEmpty,
    ensures
        ({
            let (begun, step) = view.create_step(listed, found, name, mode, flags, now);
            let (ended, reply) = begun.create_end(step->WriteEmpty_0, false);
            &&& reply == Err::<FileAttr, Errno>(Errno::Eio)
            &&& ended.attrs == view.attrs
        }),
{
    let (begun, step) = view.create_step(listed, found, name, mode, flags, now);
    let (ended, reply) = begun.create_end(step->WriteEmpty_0, false);
    assert(ended.attrs =~= view.attrs);
}

/// A lookup that succeeds answers with the size that the server lists, under an inode with the
/// path of the file.
pub proof fn lookup_answers_for_file(
    view: ClientView,
    entry: EntryView,
    found: Option<u64>,
    now: Timestamp,
)
    requires
        view.wf(),
        view.next_inode < u64::MAX,
        view.finds(client::root_path(entry.name), found),
    ensures
        match view.lookup_step(Some(entry), found, now) {
            (after, Ok(attr)) => {
                &&& attr.size == entry.size
                &&& attr.blocks == client::blocks_of(entry.size)
                &&& after.attrs.contains_key(attr.ino) && after.attrs[attr.ino] == attr
                &&& after.paths.contains_key(attr.ino) && after.paths[attr.ino]
                    == client::root_path(entry.name)
            },
            (after, Err(errno)) => errno == Errno::Enoent && after == view,
        },
{
}

/// A file that is looked up twice has the same inode both times, unless the client knows its path
/// under several numbers or under one without attributes.
pub proof fn lookup_finds_same_inode(
    view: ClientView,
    entry: EntryView,
    found: Option<u64>,
    now: Timestamp,
    again: Option<u64>,
    later: Timestamp,
)
    requires
        view.wf(),
        view.next_inode < u64::MAX,
        view.finds(client::root_path(entry.name), found),
        forall|ino: u64| #[trigger]
            view.paths.contains_key(ino) && view.paths[ino] == client::root_path(entry.name)
                ==> found == Some(ino) && view.attrs.contains_key(ino),
        view.lookup_step(Some(entry), found, now).1 is Ok,
        view.lookup_step(Some(entry), found, now).0.finds(client::root_path(entry.name), again),
    ensures
        ({
            let (after, first) = view.lookup_step(Some(entry), found, now);
            let second = after.lookup_step(Some(entry), again, later).1;
            second is Ok && second->Ok_0.ino == first->Ok_0.ino
        }),
{
    let (after, first) = view.lookup_step(Some(entry), found, now);
    let ino = first->Ok_0.ino;
    assert(after.paths.contains_key(ino) && after.paths[ino] == client::root_path(entry.name));
    assert(again is Some);
    if again->0 != ino {
        assert(view.paths.contains_key(again->0));
    }
}

/// No two inodes have the same path, and every path is that of an inode whose attributes are known.
pub open spec fn tidy(view: ClientView) -> bool {
    &&& forall|i: u64, j: u64|
        #![trigger view.paths.contains_key(i), view.paths.contains_key(j)]
        view.paths.contains_key(i) && view.paths.contains_key(j) && view.paths[i] == view.paths[j]
            ==> i == j
    &&& forall|i: u64| #[trigger] view.paths.contains_key(i) ==> view.attrs.contains_key(i)
}

/// A lookup of a file or a directory succeeds, and keeps a tidy client tidy.
pub proof fn lookup_keeps_order(
    view: ClientView,
    entry: EntryView,
    found: Option<u64>,
    now: Timestamp,
)
    requires
        view.wf(),
        tidy(view),
        view.next_inode < u64::MAX,
        client::file_type_of(entry.type_) is Some,
        view.finds(client::root_path(entry.name), found),
    ensures
        ({
            let (after, reply) = view.lookup_step(Some(entry), found, now);
            &&& reply is Ok
            &&& after.wf()
            &&& tidy(after)
            &&& keeps_paths(view, after)
            &&& after.next_inode <= view.next_inode + 1
            &&& reply->Ok_0.ino != client::ROOT_INODE
            &&& after.paths.contains_key(reply->Ok_0.ino)
            &&& after.paths[reply->Ok_0.ino] == client::root_path(entry.name)
            &&& found is Some ==> after.paths == view.paths && after.next_inode == view.next_inode
        }),
{
    let (after, reply) = view.lookup_step(Some(entry), found, now);
    if found is None {
        assert(after.paths[view.next_inode] == client::root_path(entry.name));
    }
}

/// A file that is looked up again after another one has the inode that it had; the other has
/// another one, and none of them is the root. The last lookup makes no inode. The listings may
/// differ in all but that they hold both names.
pub proof fn lookups_in_turn(
    view: ClientView,
    a: EntryView,
    found_a: Option<u64>,
    first: Timestamp,
    b: EntryView,
    found_b: Option<u64>,
    second: Timestamp,
    again: EntryView,
    found_again: Option<u64>,
    third: Timestamp,
)
    requires
        view.wf(),
        tidy(view),
        view.next_inode + 2 < u64::MAX,
        a.name != b.name,
        again.name == a.name,
        client::file_type_of(a.type_) is Some,
        client::file_type_of(b.type_) is Some,
        client::file_type_of(again.type_) is Some,
        view.finds(client::root_path(a.name), found_a),
        view.lookup_step(Some(a), found_a, first).0.finds(client::root_path(b.name), found_b),
        view.lookup_step(Some(a), found_a, first).0.lookup_step(Some(b), found_b, second).0.finds(
            client::root_path(a.name),
            found_again,
        ),
    ensures
        ({
            let (one, reply_a) = view.lookup_step(Some(a), found_a, first);
            let (two, reply_b) = one.lookup_step(Some(b), found_b, second);
            let (three, reply) = two.lookup_step(Some(again), found_again, third);
            &&& reply_a is Ok && reply_b is Ok && reply is Ok
            &&& reply->Ok_0.ino == reply_a->Ok_0.ino
            &&& reply_b->Ok_0.ino != reply_a->Ok_0.ino
            &&& reply_a->Ok_0.ino != client::ROOT_INODE
            &&& reply_b->Ok_0.ino != client::ROOT_INODE
            &&& three.paths == two.paths
            &&& three.next_inode == two.next_inode
            &&& one.wf() && two.wf() && three.wf()
        }),
{
    let (one, reply_a) = view.lookup_step(Some(a), found_a, first);
    let (two, reply_b) = one.lookup_step(Some(b), found_b, second);
    let (three, reply) = two.lookup_step(Some(again), found_again, third);
    lookup_keeps_order(view, a, found_a, first);
    lookup_keeps_order(one, b, found_b, second);
    lookup_keeps_order(two, again, found_again, third);
    let i = reply_a->Ok_0.ino;
    let j = reply_b->Ok_0.ino;
    assert(client::root_path(a.name).skip(1) =~= a.name);
    assert(client::root_path(b.name).skip(1) =~= b.name);
    assert(one.paths.contains_key(i));
    assert(two.paths.contains_key(i) && two.paths[i] == client::root_path(a.name));
    assert(two.paths.contains_key(j));
    assert(found_again is Some);
    assert(two.paths.contains_key(found_again->0));
}

/// A change of attributes that changes nothing leaves everything as it is.
pub proof fn no_change_changes_nothing(view: ClientView, ino: u64, now: Timestamp)
    requires
        view.wf(),
        view.attrs.contains_key(ino),
    ensures
        view.setattr_step(
            ino,
            AttrChanges {
                mode: None,
                uid: None,
                gid: None,
                size: None,
                atime: None,
                mtime: None,
                flags: None,
            },
            false,
            now,
        ) == (view, Ok::<FileAttr, Errno>(view.attrs[ino])),
{
    let none = AttrChanges {
        mode: None,
        uid: None,
        gid: None,
        size: None,
        atime: None,
        mtime: None,
        flags: None,
    };
    assert(client::changed(view.attrs[ino], none, now) == view.attrs[ino]);
    assert(view.attrs.insert(ino, view.attrs[ino]) =~= view.attrs);
}

proof fn lemma_root_items_len(entries: Seq<EntryView>, ino: u64)
    ensures
        2 <= client::root_items(entries, ino).len() <= entries.len() + 2,
    decreases entries.len(),
{
    if entries.len() > 0 {
        lemma_root_items_len(entries.drop_last(), ino);
    }
}

/// A listing that stopped behind an entry goes on with the next one.
pub proof fn listing_goes_on(entries: Seq<EntryView>, ino: u64, i: int)
    requires
        entries.len() + 2 <= i64::MAX,
        0 <= i < client::root_items(entries, ino).len(),
    ensures
        client::root_items(entries, ino)[i].next == i + 1,
    decreases entries.len(),
{
    if entries.len() > 0 {
        lemma_root_items_len(entries.drop_last(), ino);
        if i < client::root_items(entries.drop_last(), ino).len() {
            listing_goes_on(entries.drop_last(), ino, i);
        }
    }
}

} // verus!
