//! What the client promises: what it asks of the server, and what it answers the kernel.

use crate::calendar::Timestamp;
use crate::client;
use crate::client::{
    AttrChanges, ClientView, CreateStep, Errno, FileAttr, FileType, ItemView, TimeOrNow,
};
use crate::encoding;
use crate::http as server;
use crate::outside;
use crate::range;
use crate::range::{ByteRange, RequestedRange};
use crate::request;
use crate::request::ClientError;
use crate::text;
use crate::types;
use crate::types::EntryView;
use vstd::prelude::*;

verus! {

/// The host and the port that the address names are kept; where it names none they are
/// `localhost` and 4433.
pub proof fn address_is_kept(host: Seq<char>, port: u16)
    ensures
        request::address_of(Some(host), Some(port)) == (host, port),
        request::address_of(None, Some(port)) == ("localhost"@, port),
        request::address_of(Some(host), None) == (host, 4433u16),
        request::address_of(None, None) == ("localhost"@, 4433u16),
        forall|url: Seq<char>|
            outside::uri_authority(url) == Some((Some(host), Some(port))) ==> #[trigger]
            request::server_of(url) == Some((host, port)),
        forall|url: Seq<char>|
            outside::uri_authority(url) is None ==> #[trigger] request::server_of(url) is None,
{
}

/// The host field of every request names the host, and behind a colon the port.
pub proof fn requests_name_the_host(
    address: (Seq<char>, u16),
    path: Seq<char>,
    offset: u64,
    len: nat,
)
    ensures
        ({
            let host = request::host_and_port(address);
            &&& host.take(address.0.len() as int) == address.0
            &&& host[address.0.len() as int] == ':'
            &&& text::u64_of(host.skip(address.0.len() as int + 1)) == Some(address.1 as u64)
            &&& request::read_request_of(address, path, offset, len).headers[0] == ("host"@, host)
            &&& request::write_request_of(address, path, offset, len).headers[0] == ("host"@, host)
            &&& request::truncate_request_of(address, path, offset).headers[0] == ("host"@, host)
            &&& request::list_request_of(address, path).headers[0] == ("host"@, host)
            &&& request::read_request_of(address, path, offset, len).headers.len() == 2
            &&& request::write_request_of(address, path, offset, len).headers.len() == 2
            &&& request::truncate_request_of(address, path, offset).headers.len() == 3
            &&& request::list_request_of(address, path).headers.len() == 1
        }),
{
    let host = request::host_and_port(address);
    assert(host.take(address.0.len() as int) =~= address.0);
    assert(host.skip(address.0.len() as int + 1) =~= text::decimal(address.1 as nat));
    text::decimal_reads_back(address.1 as u64);
}

/// The request to read asks for the bytes from the offset on, as many as are wanted, and of the
/// file at the path.
pub proof fn read_asks_for_its_bytes(
    address: (Seq<char>, u16),
    path: Seq<char>,
    offset: u64,
    size: nat,
)
    requires
        1 <= offset + size <= u64::MAX,
    ensures
        ({
            let read = request::read_request_of(address, path, offset, size);
            &&& read.method == "GET"@
            &&& read.path == "/file/"@ + text::trim_prefixes(path, "/"@)
            &&& read.headers[1].0 == "Range"@
            &&& range::range_of(read.headers[1].1) == RequestedRange::Bytes(
                ByteRange { start: offset, end: Some((offset + size - 1) as u64) },
            )
        }),
{
    range::range_reads_back(offset, size);
}

/// The request to write names the offset and the length of the body, and the file at the path.
pub proof fn write_tells_its_place(
    address: (Seq<char>, u16),
    path: Seq<char>,
    offset: u64,
    len: nat,
)
    requires
        offset + len <= u64::MAX,
        len > 0 || offset == 0,
    ensures
        ({
            let write = request::write_request_of(address, path, offset, len);
            &&& write.method == "PATCH"@
            &&& write.path == "/file/"@ + text::trim_prefixes(path, "/"@)
            &&& write.headers[1].0 == "Content-Range"@
            &&& range::write_extent(Some(write.headers[1].1)) == Ok::<
                (Option<u64>, Option<u64>),
                Seq<char>,
            >((Some(offset), Some(len as u64)))
            &&& range::is_creation(Some(write.headers[1].1)) <==> offset + len == 0
        }),
{
    range::write_extent_reads_back(offset, len);
    let last = if len == 0 {
        offset
    } else {
        (offset + len - 1) as u64
    };
    range::content_range_reads_back(offset, last, (offset + len) as u64);
}

/// The request to give a file a size is read by the server as a truncation to just that size, of
/// the file at the path, and has no body.
pub proof fn truncation_tells_its_size(address: (Seq<char>, u16), path: Seq<char>, size: u64)
    ensures
        ({
            let truncate = request::truncate_request_of(address, path, size);
            &&& truncate.method == "PATCH"@
            &&& truncate.path == "/file"@ + path
            &&& truncate.headers[1] == ("Content-Length"@, "0"@)
            &&& truncate.headers[2].0 == "Content-Range"@
            &&& range::write_extent(Some(truncate.headers[2].1)) == Ok::<
                (Option<u64>, Option<u64>),
                Seq<char>,
            >((Some(size), None))
            &&& range::content_range_of(truncate.headers[2].1) == Ok::<
                range::ContentRange,
                Seq<char>,
            >(range::ContentRange::Truncate { size })
        }),
{
    range::truncation_reads_back(size);
}

/// The request to list gets `/dir` and the path.
pub proof fn list_goes_to_its_path(address: (Seq<char>, u16), path: Seq<char>)
    ensures
        request::list_request_of(address, path).method == "GET"@,
        request::list_request_of(address, path).path == "/dir"@ + path,
        request::list_request_of(address, path).headers.len() == 1,
        request::list_request_of(address, path).headers[0] == ("host"@, request::host_and_port(
            address,
        )),
{
}

/// The request to list names the directory at the path.
pub proof fn list_names_its_directory(address: (Seq<char>, u16), path: Seq<char>)
    requires
        path.len() > 0,
        path[0] == '/',
        !path.contains('%'),
    ensures
        request::list_request_of(address, path).method == "GET"@,
        request::list_request_of(address, path).path == "/dir"@ + path,
        server::requested_dir(request::list_request_of(address, path).path) == "/dir"@ + path,
{
    reveal_strlit("/dir");
    reveal_strlit("/dir/");
    let below = path.skip(1);
    assert("/dir"@ + path =~= "/dir/"@ + below);
    assert(!below.contains('%')) by {
        if below.contains('%') {
            let i = choose|i: int| 0 <= i < below.len() && below[i] == '%';
            assert(path[i + 1] == '%');
        }
    }
    encoding::plain_text_stays(below);
    text::prefix_comes_off_once(below, "/dir/"@);
}

/// A status of two hundred and something is a success, and no other.
pub proof fn success_is_two_hundred(status: u16)
    ensures
        request::is_success(status) <==> status / 100 == 2,
{
}

/// The message for a refusal holds what the server said, or that nothing is known.
pub proof fn refusal_is_passed_on(said: Seq<char>)
    ensures
        request::server_message(Some(said)) == "Server error: "@ + said,
        request::server_message(None) == "Server error: "@ + "Unknown error"@,
{
}

/// So many blocks of 512 bytes are needed for a size: they hold it, and one less would not.
pub proof fn blocks_hold_the_size(size: u64)
    ensures
        client::blocks_of(size) * 512 >= size,
        client::blocks_of(size) > 0 ==> (client::blocks_of(size) - 1) * 512 < size,
        size == 0 ==> client::blocks_of(size) == 0,
{
}

/// Only `file` and `dir` are known as types of entries.
pub proof fn types_are_files_and_directories(type_: Seq<char>)
    ensures
        client::file_type_of(type_) == Some(FileType::RegularFile) <==> type_ == "file"@,
        client::file_type_of(type_) == Some(FileType::Directory) <==> type_ == "dir"@,
        client::file_type_of(type_) is None <==> type_ != "file"@ && type_ != "dir"@,
{
    reveal_strlit("file");
    reveal_strlit("dir");
    assert("file"@.len() == 4 && "dir"@.len() == 3);
}

/// The two have the same attributes but for the size and the number of blocks.
pub open spec fn same_but_for_size(a: FileAttr, b: FileAttr) -> bool {
    &&& a.ino == b.ino
    &&& a.atime == b.atime
    &&& a.mtime == b.mtime
    &&& a.ctime == b.ctime
    &&& a.crtime == b.crtime
    &&& a.kind == b.kind
    &&& a.perm == b.perm
    &&& a.nlink == b.nlink
    &&& a.uid == b.uid
    &&& a.gid == b.gid
    &&& a.rdev == b.rdev
    &&& a.flags == b.flags
    &&& a.blksize == b.blksize
}

/// `after` knows what `before` knows of all inodes but `ino`, and has the same paths, the same
/// counter and the same server.
pub open spec fn differs_at(before: ClientView, after: ClientView, ino: u64) -> bool {
    &&& forall|other: u64|
        other != ino ==> #[trigger] after.attrs.contains_key(other) == before.attrs.contains_key(
            other,
        )
    &&& forall|other: u64|
        other != ino && #[trigger] before.attrs.contains_key(other) ==> after.attrs[other]
            == before.attrs[other]
    &&& after.paths == before.paths
    &&& after.next_inode == before.next_inode
    &&& after.server_url == before.server_url
}

/// Where the server lists an inode, getattr answers with the attributes known before, in all but
/// the size and the blocks, which are those of the listing, and keeps that. No other inode
/// changes. Where the server does not list it, it answers with what is known, and an inode that is
/// not known is not found.
pub proof fn getattr_refreshes_the_size(view: ClientView, ino: u64, entry: EntryView)
    requires
        view.wf(),
    ensures
        view.attrs.contains_key(ino) ==> match view.getattr_step(ino, Some(entry)) {
            (after, Ok(attr)) => {
                &&& attr.size == entry.size
                &&& attr.blocks * 512 >= entry.size && (attr.blocks - 1) * 512 < entry.size
                &&& same_but_for_size(attr, view.attrs[ino])
                &&& after.attrs.contains_key(ino) && after.attrs[ino] == attr
                &&& differs_at(view, after, ino)
            },
            (_, Err(_)) => false,
        },
        view.attrs.contains_key(ino) ==> view.getattr_step(ino, None) == (
            view,
            Ok::<FileAttr, Errno>(view.attrs[ino]),
        ),
        !view.attrs.contains_key(ino) ==> view.getattr_step(ino, None) == (
            view,
            Err::<FileAttr, Errno>(Errno::Enoent),
        ),
        !view.attrs.contains_key(ino) ==> view.getattr_step(ino, Some(entry)) == (
            view,
            Err::<FileAttr, Errno>(Errno::Enoent),
        ),
        view.attrs.contains_key(ino) ==> view.cached(ino) == Ok::<FileAttr, Errno>(view.attrs[ino]),
        !view.attrs.contains_key(ino) ==> view.cached(ino) == Err::<FileAttr, Errno>(Errno::Enoent),
{
}

/// The entry of an inode is the first one that the listing has under the last name of its path.
pub proof fn own_entry_has_the_name(
    view: ClientView,
    ino: u64,
    entries: Seq<EntryView>,
    name: Seq<char>,
)
    requires
        view.paths.contains_key(ino),
        outside::path_file_name_of(view.paths[ino]) == Some(name),
    ensures
        view.own_entry(ino, Some(entries)) == types::first_named(entries, name),
        view.own_entry(ino, None) is None,
{
}

/// The directory that holds a file is the parent of its path, and the root where it has none.
pub proof fn holder_is_the_parent(parent: Seq<char>, path: Seq<char>)
    ensures
        client::holder_of(Some(parent)) == parent,
        client::holder_of(None) == "/"@,
        outside::path_parent_of(path) == Some(parent) ==> client::parent_of(path) == parent,
        outside::path_parent_of(path) is None ==> client::parent_of(path) == "/"@,
{
}

/// A file that is looked up and known keeps its number and all its attributes but the size and the
/// blocks, which are those of the listing. No other inode changes.
pub proof fn lookup_of_a_known_file_refreshes_its_size(
    view: ClientView,
    entry: EntryView,
    ino: u64,
    now: Timestamp,
)
    requires
        view.wf(),
        view.attrs.contains_key(ino),
    ensures
        match view.lookup_step(Some(entry), Some(ino), now) {
            (after, Ok(attr)) => {
                &&& attr.ino == ino
                &&& attr.size == entry.size
                &&& attr.blocks * 512 >= entry.size && (attr.blocks - 1) * 512 < entry.size
                &&& same_but_for_size(attr, view.attrs[ino])
                &&& after.attrs.contains_key(ino) && after.attrs[ino] == attr
                &&& differs_at(view, after, ino)
            },
            (_, Err(_)) => false,
        },
{
}

/// The attributes of an inode that is new: its number, its kind and its size, the permissions, the
/// present as all its points in time, and the standard owner.
pub open spec fn is_new(
    attr: FileAttr,
    ino: u64,
    kind: FileType,
    size: u64,
    perm: u16,
    flags: u32,
    now: Timestamp,
) -> bool {
    &&& attr.ino == ino
    &&& attr.kind == kind
    &&& attr.size == size
    &&& attr.blocks * 512 >= size && (attr.blocks - 1) * 512 < size
    &&& attr.perm == perm
    &&& attr.flags == flags
    &&& attr.atime == now && attr.mtime == now && attr.ctime == now && attr.crtime == now
    &&& attr.nlink == 1
    &&& attr.uid == 1000 && attr.gid == 1000
    &&& attr.rdev == 0
    &&& attr.blksize == 512
}

/// `after` is `before` with one more inode, under the next number.
pub open spec fn has_one_more(
    before: ClientView,
    after: ClientView,
    attr: FileAttr,
    path: Seq<char>,
) -> bool {
    let ino = before.next_inode;
    &&& after.attrs.contains_key(ino) && after.attrs[ino] == attr
    &&& after.paths.contains_key(ino) && after.paths[ino] == path
    &&& after.next_inode == ino + 1
    &&& after.server_url == before.server_url
    &&& forall|other: u64|
        other != ino ==> #[trigger] after.attrs.contains_key(other) == before.attrs.contains_key(
            other,
        )
    &&& forall|other: u64|
        other != ino && #[trigger] before.attrs.contains_key(other) ==> after.attrs[other]
            == before.attrs[other]
    &&& forall|other: u64|
        other != ino ==> #[trigger] after.paths.contains_key(other) == before.paths.contains_key(
            other,
        )
    &&& forall|other: u64|
        other != ino && #[trigger] before.paths.contains_key(other) ==> after.paths[other]
            == before.paths[other]
}

/// A file or directory that is looked up and not known gets the next number, with the kind, the
/// size and the permissions that the server lists, under its path. An entry of another type is not
/// found, and so is a file that the server does not list; then nothing changes.
pub proof fn lookup_of_a_new_file_adds_it(
    view: ClientView,
    entry: EntryView,
    found: Option<u64>,
    now: Timestamp,
)
    requires
        view.wf(),
        view.next_inode < u64::MAX,
        found is None || !view.attrs.contains_key(found->0),
    ensures
        entry.type_ == "file"@ || entry.type_ == "dir"@ ==> match view.lookup_step(
            Some(entry),
            found,
            now,
        ) {
            (after, Ok(attr)) => {
                let kind = if entry.type_ == "dir"@ {
                    FileType::Directory
                } else {
                    FileType::RegularFile
                };
                &&& is_new(attr, view.next_inode, kind, entry.size, entry.mode as u16, 0, now)
                &&& has_one_more(view, after, attr, "/"@ + entry.name)
            },
            (_, Err(_)) => false,
        },
        entry.type_ != "file"@ && entry.type_ != "dir"@ ==> view.lookup_step(
            Some(entry),
            found,
            now,
        ) == (view, Err::<FileAttr, Errno>(Errno::Enoent)),
        view.lookup_step(None, found, now) == (view, Err::<FileAttr, Errno>(Errno::Enoent)),
{
    types_are_files_and_directories(entry.type_);
    reveal_strlit("/");
    assert(client::root_path(entry.name) =~= "/"@ + entry.name);
}

/// A file that is created and not both listed and known gets the next number, as an empty regular
/// file with the mode and the flags that are given, under its path. One that is listed and known
/// is answered as it is known, and nothing changes.
pub proof fn creation_adds_an_empty_file(
    view: ClientView,
    listed: bool,
    found: Option<u64>,
    name: Seq<char>,
    mode: u32,
    flags: i32,
    now: Timestamp,
)
    requires
        view.wf(),
        view.next_inode < u64::MAX,
    ensures
        listed && found is Some && view.attrs.contains_key(found->0) ==> view.create_step(
            listed,
            found,
            name,
            mode,
            flags,
            now,
        ) == (view, CreateStep::Created(view.attrs[found->0])),
        !(listed && found is Some && view.attrs.contains_key(found->0)) ==> match view.create_step(
            listed,
            found,
            name,
            mode,
            flags,
            now,
        ) {
            (after, CreateStep::WriteEmpty(attr)) => {
                &&& is_new(
                    attr,
                    view.next_inode,
                    FileType::RegularFile,
                    0,
                    mode as u16,
                    flags as u32,
                    now,
                )
                &&& has_one_more(view, after, attr, "/"@ + name)
            },
            _ => false,
        },
{
    reveal_strlit("/");
    assert(client::root_path(name) =~= "/"@ + name);
}

/// A file that the server made is answered, and nothing changes. Where it did not, only the
/// attributes of that inode are forgotten, and the creation fails.
pub proof fn creation_ends_as_the_server_says(view: ClientView, attr: FileAttr)
    ensures
        view.create_end(attr, true) == (view, Ok::<FileAttr, Errno>(attr)),
        view.create_end(attr, false).1 == Err::<FileAttr, Errno>(Errno::Eio),
        !view.create_end(attr, false).0.attrs.contains_key(attr.ino),
        differs_at(view, view.create_end(attr, false).0, attr.ino),
{
}

/// Just the known regular files with a path can be read and written. What is not known is not
/// found, and what is no regular file is a directory.
pub proof fn only_files_are_read_and_written(view: ClientView, ino: u64)
    ensures
        view.file_refusal(ino) is None <==> view.attrs.contains_key(ino) && view.attrs[ino].kind
            == FileType::RegularFile && view.paths.contains_key(ino),
        !view.attrs.contains_key(ino) <==> view.file_refusal(ino) == Some(Errno::Enoent),
        view.attrs.contains_key(ino) && view.attrs[ino].kind == FileType::Directory
            <==> view.file_refusal(ino) == Some(Errno::Eisdir),
{
}

/// A change of attributes sets each attribute that is given, and leaves each that is not, and all
/// that cannot be given. No other inode changes.
pub proof fn setattr_sets_what_is_given(
    view: ClientView,
    ino: u64,
    changes: AttrChanges,
    now: Timestamp,
)
    requires
        view.wf(),
        view.attrs.contains_key(ino),
    ensures
        match view.setattr_step(ino, changes, true, now) {
            (after, Ok(attr)) => {
                let old_attr = view.attrs[ino];
                &&& attr.perm == if changes.mode is Some {
                    changes.mode->0 as u16
                } else {
                    old_attr.perm
                }
                &&& attr.uid == if changes.uid is Some {
                    changes.uid->0
                } else {
                    old_attr.uid
                }
                &&& attr.gid == if changes.gid is Some {
                    changes.gid->0
                } else {
                    old_attr.gid
                }
                &&& attr.size == if changes.size is Some {
                    changes.size->0
                } else {
                    old_attr.size
                }
                &&& attr.flags == if changes.flags is Some {
                    changes.flags->0
                } else {
                    old_attr.flags
                }
                &&& changes.atime == Some(TimeOrNow::Now) ==> attr.atime == now
                &&& changes.mtime == Some(TimeOrNow::Now) ==> attr.mtime == now
                &&& changes.atime matches Some(TimeOrNow::SpecificTime(time)) ==> attr.atime == time
                &&& changes.mtime matches Some(TimeOrNow::SpecificTime(time)) ==> attr.mtime == time
                &&& changes.atime is None ==> attr.atime == old_attr.atime
                &&& changes.mtime is None ==> attr.mtime == old_attr.mtime
                &&& attr.ino == ino
                &&& attr.blocks == old_attr.blocks
                &&& attr.ctime == old_attr.ctime && attr.crtime == old_attr.crtime
                &&& attr.kind == old_attr.kind
                &&& attr.nlink == old_attr.nlink
                &&& attr.rdev == old_attr.rdev
                &&& attr.blksize == old_attr.blksize
                &&& after.attrs.contains_key(ino) && after.attrs[ino] == attr
                &&& differs_at(view, after, ino)
            },
            (_, Err(_)) => false,
        },
        changes.size is None ==> view.setattr_step(ino, changes, false, now) == view.setattr_step(
            ino,
            changes,
            true,
            now,
        ),
        changes.size is Some ==> view.setattr_step(ino, changes, false, now) == (
            view,
            Err::<FileAttr, Errno>(Errno::Eio),
        ),
{
}

/// Attributes of what is not known cannot be changed.
pub proof fn setattr_needs_an_inode(
    view: ClientView,
    ino: u64,
    changes: AttrChanges,
    truncated: bool,
    now: Timestamp,
)
    requires
        !view.attrs.contains_key(ino),
    ensures
        view.setattr_step(ino, changes, truncated, now) == (
            view,
            Err::<FileAttr, Errno>(Errno::Enoent),
        ),
{
}

/// An inode is found by a path just where it has that path.
pub proof fn inodes_are_found_by_path(view: ClientView, path: Seq<char>, found: Option<u64>)
    requires
        view.finds(path, found),
    ensures
        found is Some ==> view.paths.contains_key(found->0) && view.paths[found->0] == path,
        found is None ==> !(exists|ino: u64| #[trigger]
            view.paths.contains_key(ino) && view.paths[ino] == path),
{
}

/// The invariant of the client: the root is known as a directory, every inode stands under its own
/// number, all numbers were handed out, every inode but the root has a path, and paths start with
/// a slash.
pub proof fn client_is_in_order(view: ClientView)
    requires
        view.wf(),
    ensures
        view.attrs.contains_key(1) && view.attrs[1].kind == FileType::Directory,
        !view.paths.contains_key(1),
        forall|ino: u64| #[trigger]
            view.attrs.contains_key(ino) ==> view.attrs[ino].ino == ino && ino < view.next_inode
                && (ino != 1 ==> view.paths.contains_key(ino)),
        forall|ino: u64| #[trigger]
            view.paths.contains_key(ino) ==> ino < view.next_inode && view.paths[ino].len() > 0
                && view.paths[ino][0] == '/',
        !view.attrs.contains_key(view.next_inode),
        !view.paths.contains_key(view.next_inode),
{
}

/// The entries of a listing that are files or directories, in order.
pub open spec fn shown(entries: Seq<EntryView>) -> Seq<EntryView> {
    entries.filter(|entry: EntryView| entry.type_ == "file"@ || entry.type_ == "dir"@)
}

/// The root directory is listed with itself, its parent, and then every entry that the server
/// lists as a file or a directory, whatever its size, mode or times, under its own name and kind
/// and in the server's order. Behind each stands the offset of the next one.
pub proof fn root_lists_every_entry(entries: Seq<EntryView>, ino: u64)
    requires
        entries.len() + 2 <= i64::MAX,
    ensures
        ({
            let items = client::root_items(entries, ino);
            &&& items.len() == shown(entries).len() + 2
            &&& items[0] == (ItemView {
                ino: 1,
                next: 1,
                kind: FileType::Directory,
                name: "."@,
            })
            &&& items[1] == (ItemView {
                ino: 1,
                next: 2,
                kind: FileType::Directory,
                name: ".."@,
            })
            &&& forall|i: int|
                0 <= i < shown(entries).len() ==> {
                    let entry = #[trigger] shown(entries)[i];
                    let item = items[i + 2];
                    &&& item.name == entry.name
                    &&& item.kind == if entry.type_ == "dir"@ {
                        FileType::Directory
                    } else {
                        FileType::RegularFile
                    }
                    &&& item.ino == ino
                    &&& item.next == i + 3
                }
        }),
        shown(entries).len() <= entries.len(),
    decreases entries.len(),
{
    reveal(Seq::filter);
    if entries.len() > 0 {
        let front = entries.drop_last();
        let last = entries.last();
        root_lists_every_entry(front, ino);
        types_are_files_and_directories(last.type_);
        let before = client::root_items(front, ino);
        let items = client::root_items(entries, ino);
        assert forall|i: int| 0 <= i < shown(entries).len() implies {
            let entry = #[trigger] shown(entries)[i];
            let item = items[i + 2];
            &&& item.name == entry.name
            &&& item.kind == if entry.type_ == "dir"@ {
                FileType::Directory
            } else {
                FileType::RegularFile
            }
            &&& item.ino == ino
            &&& item.next == i + 3
        } by {
            if i < shown(front).len() {
                assert(shown(entries)[i] == shown(front)[i]);
                assert(items[i + 2] == before[i + 2]);
            }
        }
    }
}

/// No entry is left out of the root: a file or directory that the server lists is among its items.
pub proof fn no_entry_is_left_out(entries: Seq<EntryView>, ino: u64, k: int)
    requires
        0 <= k < entries.len(),
        entries[k].type_ == "file"@ || entries[k].type_ == "dir"@,
    ensures
        exists|i: int|
            2 <= i < client::root_items(entries, ino).len() && (#[trigger] client::root_items(
                entries,
                ino,
            )[i]).name == entries[k].name,
    decreases entries.len(),
{
    let front = entries.drop_last();
    let items = client::root_items(entries, ino);
    types_are_files_and_directories(entries.last().type_);
    lemma_two_items(front, ino);
    if k < front.len() {
        no_entry_is_left_out(front, ino, k);
        let before = client::root_items(front, ino);
        let i = choose|i: int| 2 <= i < before.len() && (#[trigger] before[i]).name == front[k].name;
        assert(items[i] == before[i]);
    } else {
        assert(items[items.len() - 1].name == entries[k].name);
    }
}

proof fn lemma_two_items(entries: Seq<EntryView>, ino: u64)
    ensures
        client::root_items(entries, ino).len() >= 2,
    decreases entries.len(),
{
    if entries.len() > 0 {
        lemma_two_items(entries.drop_last(), ino);
    }
}

/// A listing from an offset on is the whole listing without so many items at its front.
pub proof fn listing_leaves_out_its_front(items: Seq<ItemView>, offset: usize)
    ensures
        offset <= items.len() ==> items.take(offset as int) + client::items_from(items, offset)
            == items,
        offset >= items.len() ==> client::items_from(items, offset).len() == 0,
{
    if offset <= items.len() {
        assert(items.take(offset as int) + client::items_from(items, offset) =~= items);
    }
}

/// An answer is an error just where its status is no success; the error then holds the text that
/// the description has under `error`, if it has one, and there is none if there is no description.
pub proof fn answers_are_understood(
    error: Option<ClientError>,
    status: u16,
    body: Seq<u8>,
    said: Seq<char>,
)
    requires
        request::answered(error, status, body),
    ensures
        error is None <==> status / 100 == 2,
        status / 100 != 2 && outside::json_text_under(body, "error"@) == Some(Some(said)) ==> (
        error matches Some(ClientError::Server(message)) && message@ == "Server error: "@ + said),
        status / 100 != 2 && outside::json_text_under(body, "error"@) == Some(None::<Seq<char>>)
            ==> (error matches Some(ClientError::Server(message)) && message@
            == "Server error: Unknown error"@),
        status / 100 != 2 && outside::json_text_under(body, "error"@) is None ==> (error
            == Some(ClientError::InvalidErrorBody)),
{
    reveal_strlit("Server error: ");
    reveal_strlit("Unknown error");
    reveal_strlit("Server error: Unknown error");
    assert("Server error: "@ + "Unknown error"@ =~= "Server error: Unknown error"@);
}

/// A path without attributes or without a number that is found is not known; one whose inodes all
/// have attributes, and which has one, is.
pub proof fn known_paths_have_attributes(view: ClientView, path: Seq<char>, ino: u64)
    requires
        view.wf(),
        view.paths.contains_key(ino),
        view.paths[ino] == path,
    ensures
        !view.attrs.contains_key(ino) ==> !view.knows(path),
        (forall|other: u64| #[trigger]
            view.paths.contains_key(other) && view.paths[other] == path ==> view.attrs.contains_key(
                other,
            )) ==> view.knows(path),
{
    assert(view.finds(path, Some(ino)));
    if forall|other: u64| #[trigger]
        view.paths.contains_key(other) && view.paths[other] == path ==> view.attrs.contains_key(
            other,
        ) {
        assert forall|found: Option<u64>| #[trigger] view.finds(path, found) implies found is Some
            && view.attrs.contains_key(found->0) by {}
    }
}

/// Only the root directory is searched, and not for hidden files; only the root is listed.
pub proof fn only_the_root_is_searched(parent: u64, name: Seq<char>)
    ensures
        parent != 1 ==> client::lookup_refused(parent, name) == Some(Errno::Enoent),
        parent == 1 && name.len() > 0 && name[0] == '.' ==> client::lookup_refused(parent, name)
            == Some(Errno::Enoent),
        parent == 1 && (name.len() == 0 || name[0] != '.') ==> client::lookup_refused(parent, name)
            is None,
        client::readdir_refused(parent) is None <==> parent == 1,
        parent != 1 ==> client::readdir_refused(parent) == Some(Errno::Enoent),
{
}

/// A read that the server served is answered with the body, and a write with the number of bytes;
/// what it refused fails.
pub proof fn answers_are_passed_on(
    reply: Result<Vec<u8>, Errno>,
    status: u16,
    body: Seq<u8>,
    len: usize,
)
    ensures
        client::read_answered(reply, status, body) && status / 100 == 2 ==> (reply matches Ok(data)
            && data@ == body),
        client::read_answered(reply, status, body) && status / 100 != 2 ==> reply == Err::<
            Vec<u8>,
            Errno,
        >(Errno::Eio),
        status / 100 == 2 && len <= u32::MAX ==> (client::write_answer(status, len) matches Ok(
            written,
        ) && written == len),
        status / 100 != 2 ==> client::write_answer(status, len) == Err::<u32, Errno>(Errno::Eio),
{
}

/// A client starts with the root directory alone, and has the next number for the first file.
pub proof fn client_starts_with_the_root(url: Seq<char>, now: Timestamp)
    ensures
        ({
            let view = ClientView::fresh(url, now);
            let root = view.attrs[1];
            &&& view.wf()
            &&& view.server_url == url
            &&& view.next_inode == 2
            &&& forall|ino: u64| #[trigger] view.attrs.contains_key(ino) <==> ino == 1
            &&& forall|ino: u64| !(#[trigger] view.paths.contains_key(ino))
            &&& root.ino == 1
            &&& root.kind == FileType::Directory
            &&& root.size == 0 && root.blocks == 0
            &&& root.perm == 0o755 && root.nlink == 2
            &&& root.uid == 1000 && root.gid == 1000
            &&& root.atime == now && root.mtime == now && root.ctime == now && root.crtime == now
            &&& root.rdev == 0 && root.flags == 0 && root.blksize == 512
        }),
{
}

/// A file that is known with its path is read and written by requests on that path, for the bytes
/// that the kernel names, at the server of the client.
pub proof fn kernel_calls_become_requests(
    view: ClientView,
    ino: u64,
    offset: i64,
    size: u32,
    len: usize,
    server: (Seq<char>, u16),
)
    requires
        view.attrs.contains_key(ino),
        view.attrs[ino].kind == FileType::RegularFile,
        view.paths.contains_key(ino),
        request::server_of(view.server_url) == Some(server),
        0 <= offset,
        size > 0,
        len > 0,
        offset + len <= u64::MAX,
    ensures
        ({
            let read = view.read_request(ino, offset, size);
            &&& read is Ok
            &&& read->Ok_0.method == "GET"@
            &&& read->Ok_0.path == "/file/"@ + text::trim_prefixes(view.paths[ino], "/"@)
            &&& read->Ok_0.headers[0].1 == request::host_and_port(server)
            &&& range::range_of(read->Ok_0.headers[1].1) == RequestedRange::Bytes(
                ByteRange { start: offset as u64, end: Some((offset + size - 1) as u64) },
            )
        }),
        ({
            let write = view.write_request(ino, offset, len);
            &&& write is Ok
            &&& write->Ok_0.method == "PATCH"@
            &&& write->Ok_0.path == "/file/"@ + text::trim_prefixes(view.paths[ino], "/"@)
            &&& write->Ok_0.headers[0].1 == request::host_and_port(server)
            &&& range::write_extent(Some(write->Ok_0.headers[1].1)) == Ok::<
                (Option<u64>, Option<u64>),
                Seq<char>,
            >((Some(offset as u64), Some(len as u64)))
        }),
{
    read_asks_for_its_bytes(server, view.paths[ino], offset as u64, size as nat);
    write_tells_its_place(server, view.paths[ino], offset as u64, len as nat);
}

/// A change of the size of a file asks the server for a truncation to that size, of the file at
/// its path; a change of anything else asks for nothing.
pub proof fn new_size_becomes_a_request(
    view: ClientView,
    ino: u64,
    size: u64,
    server: (Seq<char>, u16),
)
    requires
        view.attrs.contains_key(ino),
    ensures
        view.setattr_request(ino, None) == Ok::<Option<request::RequestView>, Errno>(None),
        view.paths.contains_key(ino) && request::server_of(view.server_url) == Some(server) ==> (
        view.setattr_request(ino, Some(size)) matches Ok(Some(truncate)) && truncate.method
            == "PATCH"@ && truncate.path == "/file"@ + view.paths[ino] && truncate.headers[0].1
            == request::host_and_port(server) && range::write_extent(Some(truncate.headers[2].1))
            == Ok::<(Option<u64>, Option<u64>), Seq<char>>((Some(size), None))),
        !view.paths.contains_key(ino) || request::server_of(view.server_url) is None
            ==> view.setattr_request(ino, Some(size)) == Err::<
            Option<request::RequestView>,
            Errno,
        >(Errno::Eio),
{
    truncation_tells_its_size(server, view.paths[ino], size);
}

/// What is not known, or is a directory, or has no server, asks for nothing, and the call fails.
pub proof fn nothing_is_asked_in_vain(
    view: ClientView,
    ino: u64,
    offset: i64,
    size: u32,
    len: usize,
    wanted: Option<u64>,
)
    ensures
        !view.attrs.contains_key(ino) ==> {
            &&& view.read_request(ino, offset, size) == Err::<request::RequestView, Errno>(
                Errno::Enoent,
            )
            &&& view.write_request(ino, offset, len) == Err::<request::RequestView, Errno>(
                Errno::Enoent,
            )
            &&& view.setattr_request(ino, wanted) == Err::<Option<request::RequestView>, Errno>(
                Errno::Enoent,
            )
        },
        view.attrs.contains_key(ino) && view.attrs[ino].kind == FileType::Directory ==> {
            &&& view.read_request(ino, offset, size) == Err::<request::RequestView, Errno>(
                Errno::Eisdir,
            )
            &&& view.write_request(ino, offset, len) == Err::<request::RequestView, Errno>(
                Errno::Eisdir,
            )
        },
        request::server_of(view.server_url) is None ==> view.read_request(ino, offset, size) is Err
            && view.write_request(ino, offset, len) is Err,
{
}

/// The request that is made is the one that is meant.
pub proof fn requests_are_as_meant(
    made: Result<request::Request, Errno>,
    meant: Result<request::RequestView, Errno>,
)
    requires
        client::asked(made, meant),
    ensures
        meant matches Ok(meant) ==> (made matches Ok(made) && made@ == meant),
        meant matches Err(errno) ==> made == Err::<request::Request, Errno>(errno),
{
}

/// For the attributes of an inode with a path the directory of that path is listed; for the root,
/// and for what has no path, nothing is.
pub proof fn attributes_come_from_the_parent(view: ClientView, ino: u64, parent: Seq<char>)
    ensures
        ino != 1 && view.paths.contains_key(ino) && outside::path_parent_of(view.paths[ino])
            == Some(parent) ==> view.getattr_listing(ino) == Some(parent),
        ino == 1 || !view.paths.contains_key(ino) ==> view.getattr_listing(ino) is None,
{
}

} // verus!
