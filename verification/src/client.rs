//! The mounted file system: what the client knows of files, and what it answers the kernel.
//!
//! An operation that needs the server is taken in steps. The first step says what to ask the
//! server, or answers at once; the last takes what the server said and answers.

use crate::calendar::Timestamp;
use crate::outside;
use crate::request;
use crate::request::{Request, RequestView};
use crate::text;
use crate::types;
use crate::types::{DirEntry, DirList, EntryView};
use std::collections::HashMap;
use vstd::prelude::*;

verus! {

/// The number of the root directory.
pub const ROOT_INODE: u64 = 1;

/// For so many seconds the kernel may rely on an answer.
pub const TTL_SECS: u64 = 1;

/// How an operation failed.
#[derive(Clone, Copy, Debug, PartialEq, Eq, Structural)]
pub enum Errno {
    /// No such file or directory.
    Enoent,
    /// The server could not be asked, or refused.
    Eio,
    /// A directory stands where a file is wanted.
    Eisdir,
}

/// What an inode is.
#[derive(Clone, Copy, Debug, PartialEq, Eq, Structural)]
pub enum FileType {
    RegularFile,
    Directory,
}

/// What is known of an inode.
#[derive(Clone, Copy, Debug, PartialEq, Eq, Structural)]
pub struct FileAttr {
    pub ino: u64,
    pub size: u64,
    pub blocks: u64,
    pub atime: Timestamp,
    pub mtime: Timestamp,
    pub ctime: Timestamp,
    pub crtime: Timestamp,
    pub kind: FileType,
    pub perm: u16,
    pub nlink: u32,
    pub uid: u32,
    pub gid: u32,
    pub rdev: u32,
    pub flags: u32,
    pub blksize: u32,
}

/// A point in time that is given, or the present.
#[derive(Clone, Copy, Debug, PartialEq, Eq, Structural)]
pub enum TimeOrNow {
    Now,
    SpecificTime(Timestamp),
}

/// The attributes that are to be changed.
#[derive(Clone, Copy, Debug, PartialEq, Eq, Structural)]
pub struct AttrChanges {
    pub mode: Option<u32>,
    pub uid: Option<u32>,
    pub gid: Option<u32>,
    pub size: Option<u64>,
    pub atime: Option<TimeOrNow>,
    pub mtime: Option<TimeOrNow>,
    pub flags: Option<u32>,
}

/// What is to be done to create a file, once the directory was listed.
#[derive(Clone, Copy, Debug, PartialEq, Eq, Structural)]
pub enum CreateStep {
    /// The file is there already and known.
    Created(FileAttr),
    /// Make an empty file on the server.
    WriteEmpty(FileAttr),
    Failed(Errno),
}

/// What is to be done to find the attributes of an inode.
#[derive(Debug)]
pub enum GetattrStep {
    Reply(Result<FileAttr, Errno>),
    /// List this directory.
    List(String),
}

/// One entry of a directory for the kernel. `next` is the offset behind it.
#[derive(Debug)]
pub struct DirItem {
    pub ino: u64,
    pub next: i64,
    pub kind: FileType,
    pub name: String,
}

/// What a [`DirItem`] says.
pub struct ItemView {
    pub ino: u64,
    pub next: i64,
    pub kind: FileType,
    pub name: Seq<char>,
}

impl View for DirItem {
    type V = ItemView;

    open spec fn view(&self) -> ItemView {
        ItemView { ino: self.ino, next: self.next, kind: self.kind, name: self.name@ }
    }
}

/// How many blocks of 512 bytes hold `size` bytes.
pub open spec fn blocks_of(size: u64) -> u64 {
    ((size + 511) / 512) as u64
}

/// The attributes of a new inode.
pub open spec fn new_attr(
    ino: u64,
    kind: FileType,
    size: u64,
    perm: u16,
    nlink: u32,
    flags: u32,
    now: Timestamp,
) -> FileAttr {
    FileAttr {
        ino,
        size,
        blocks: blocks_of(size),
        atime: now,
        mtime: now,
        ctime: now,
        crtime: now,
        kind,
        perm,
        nlink,
        uid: 1000,
        gid: 1000,
        rdev: 0,
        flags,
        blksize: 512,
    }
}

/// The attributes with the size that the server says.
pub open spec fn resized(attr: FileAttr, size: u64) -> FileAttr {
    FileAttr { size, blocks: blocks_of(size), ..attr }
}

/// The type of file that a listing names.
pub open spec fn file_type_of(type_: Seq<char>) -> Option<FileType> {
    if type_ == "file"@ {
        Some(FileType::RegularFile)
    } else if type_ == "dir"@ {
        Some(FileType::Directory)
    } else {
        None
    }
}

/// The point in time that is meant.
pub open spec fn time_of(time: TimeOrNow, now: Timestamp) -> Timestamp {
    match time {
        TimeOrNow::Now => now,
        TimeOrNow::SpecificTime(time) => time,
    }
}

/// The attributes after the changes. The number of blocks stays.
pub open spec fn changed(attr: FileAttr, changes: AttrChanges, now: Timestamp) -> FileAttr {
    FileAttr {
        perm: match changes.mode {
            Some(mode) => mode as u16,
            None => attr.perm,
        },
        uid: match changes.uid {
            Some(uid) => uid,
            None => attr.uid,
        },
        gid: match changes.gid {
            Some(gid) => gid,
            None => attr.gid,
        },
        size: match changes.size {
            Some(size) => size,
            None => attr.size,
        },
        atime: match changes.atime {
            Some(time) => time_of(time, now),
            None => attr.atime,
        },
        mtime: match changes.mtime {
            Some(time) => time_of(time, now),
            None => attr.mtime,
        },
        flags: match changes.flags {
            Some(flags) => flags,
            None => attr.flags,
        },
        ..attr
    }
}

/// The path of a file in the root directory.
pub open spec fn root_path(name: Seq<char>) -> Seq<char> {
    seq!['/'] + name
}

/// The directory that holds a file: the parent of its path, or the root if the path has none.
pub open spec fn holder_of(parent: Option<Seq<char>>) -> Seq<char> {
    match parent {
        Some(parent) => parent,
        None => "/"@,
    }
}

/// The directory that holds the file at `path`.
pub open spec fn parent_of(path: Seq<char>) -> Seq<char> {
    holder_of(outside::path_parent_of(path))
}

/// The entries of the root directory: itself, its parent, and what the server lists of files and
/// directories, all under the number `ino`.
pub open spec fn root_items(entries: Seq<EntryView>, ino: u64) -> Seq<ItemView>
    decreases entries.len(),
{
    if entries.len() == 0 {
        seq![
            ItemView { ino: ROOT_INODE, next: 1, kind: FileType::Directory, name: "."@ },
            ItemView { ino: ROOT_INODE, next: 2, kind: FileType::Directory, name: ".."@ },
        ]
    } else {
        let before = root_items(entries.drop_last(), ino);
        match file_type_of(entries.last().type_) {
            Some(kind) => before.push(
                ItemView {
                    ino,
                    next: (before.len() + 1) as i64,
                    kind,
                    name: entries.last().name,
                },
            ),
            None => before,
        }
    }
}

/// What is left of `items` from `offset` on.
pub open spec fn items_from(items: Seq<ItemView>, offset: usize) -> Seq<ItemView> {
    if offset < items.len() {
        items.skip(offset as int)
    } else {
        Seq::empty()
    }
}

/// Why a lookup is not even asked of the server.
pub open spec fn lookup_refused(parent: u64, name: Seq<char>) -> Option<Errno> {
    if parent != ROOT_INODE || (name.len() > 0 && name[0] == '.') {
        Some(Errno::Enoent)
    } else {
        None
    }
}

/// Why a directory is not even asked of the server.
pub open spec fn readdir_refused(ino: u64) -> Option<Errno> {
    if ino != ROOT_INODE {
        Some(Errno::Enoent)
    } else {
        None
    }
}

/// `reply` is the reply to a read that the server answered with that status and that body.
pub open spec fn read_answered(
    reply: Result<Vec<u8>, Errno>,
    status: u16,
    body: Seq<u8>,
) -> bool {
    if request::is_success(status) {
        reply matches Ok(data) && data@ == body
    } else {
        reply matches Err(Errno::Eio)
    }
}

/// The reply to a write of `len` bytes that the server answered with that status.
pub open spec fn write_answer(status: u16, len: usize) -> Result<u32, Errno> {
    if request::is_success(status) {
        Ok(len as u32)
    } else {
        Err(Errno::Eio)
    }
}

/// `request` is the request that is meant, or the same error.
pub open spec fn asked(request: Result<Request, Errno>, meant: Result<RequestView, Errno>) -> bool {
    match meant {
        Ok(meant) => request matches Ok(request) && request@ == meant,
        Err(errno) => request == Err::<Request, Errno>(errno),
    }
}

/// What the client knows: the attributes and the paths of inodes, the number of the next inode,
/// and the address of the server.
#[verifier::ext_equal]
pub struct ClientView {
    pub attrs: Map<u64, FileAttr>,
    pub paths: Map<u64, Seq<char>>,
    pub next_inode: u64,
    pub server_url: Seq<char>,
}

impl ClientView {
    /// Nothing is known yet but the root directory.
    pub open spec fn fresh(server_url: Seq<char>, now: Timestamp) -> ClientView {
        ClientView {
            attrs: Map::empty().insert(
                ROOT_INODE,
                new_attr(ROOT_INODE, FileType::Directory, 0, 0o755, 2, 0, now),
            ),
            paths: Map::empty(),
            next_inode: 2,
            server_url,
        }
    }

    /// The root directory is known. Attributes stand under their own number. All numbers were
    /// handed out, and every inode but the root has a path.
    pub open spec fn wf(self) -> bool {
        &&& self.next_inode > ROOT_INODE
        &&& self.attrs.contains_key(ROOT_INODE)
        &&& self.attrs[ROOT_INODE].kind == FileType::Directory
        &&& forall|ino: u64| #[trigger]
            self.attrs.contains_key(ino) ==> self.attrs[ino].ino == ino && ino < self.next_inode
                && (ino != ROOT_INODE ==> self.paths.contains_key(ino))
        &&& forall|ino: u64| #[trigger]
            self.paths.contains_key(ino) ==> ROOT_INODE < ino < self.next_inode
                && self.paths[ino].len() > 0 && self.paths[ino][0] == '/'
    }

    /// `found` is an inode with that path, or there is none.
    pub open spec fn finds(self, path: Seq<char>, found: Option<u64>) -> bool {
        match found {
            Some(ino) => self.paths.contains_key(ino) && self.paths[ino] == path,
            None => forall|ino: u64| #[trigger]
                self.paths.contains_key(ino) ==> self.paths[ino] != path,
        }
    }

    /// An inode with that path will be found, and its attributes are known.
    pub open spec fn knows(self, path: Seq<char>) -> bool {
        forall|found: Option<u64>| #[trigger]
            self.finds(path, found) ==> found is Some && self.attrs.contains_key(found->0)
    }

    /// With these attributes under their number.
    pub open spec fn with_attr(self, attr: FileAttr) -> ClientView {
        ClientView { attrs: self.attrs.insert(attr.ino, attr), ..self }
    }

    /// With a new inode.
    pub open spec fn with_inode(self, attr: FileAttr, path: Seq<char>) -> ClientView {
        ClientView {
            attrs: self.attrs.insert(self.next_inode, attr),
            paths: self.paths.insert(self.next_inode, path),
            next_inode: (self.next_inode + 1) as u64,
            server_url: self.server_url,
        }
    }

    /// The creation of a file that the server lists already or not, where `found` is an inode
    /// with its path.
    pub open spec fn create_step(
        self,
        listed: bool,
        found: Option<u64>,
        name: Seq<char>,
        mode: u32,
        flags: i32,
        now: Timestamp,
    ) -> (ClientView, CreateStep) {
        if listed && found is Some && self.attrs.contains_key(found->0) {
            (self, CreateStep::Created(self.attrs[found->0]))
        } else {
            let attr = new_attr(
                self.next_inode,
                FileType::RegularFile,
                0,
                mode as u16,
                1,
                flags as u32,
                now,
            );
            (self.with_inode(attr, root_path(name)), CreateStep::WriteEmpty(attr))
        }
    }

    /// The end of the creation of a file: without the inode if the server did not make the file.
    pub open spec fn create_end(self, attr: FileAttr, written: bool) -> (
        ClientView,
        Result<FileAttr, Errno>,
    ) {
        if written {
            (self, Ok(attr))
        } else {
            (ClientView { attrs: self.attrs.remove(attr.ino), ..self }, Err(Errno::Eio))
        }
    }

    /// The lookup of a file of which the server lists `entry`, where `found` is an inode with its
    /// path.
    pub open spec fn lookup_step(
        self,
        entry: Option<EntryView>,
        found: Option<u64>,
        now: Timestamp,
    ) -> (ClientView, Result<FileAttr, Errno>) {
        match entry {
            None => (self, Err(Errno::Enoent)),
            Some(entry) => if found is Some && self.attrs.contains_key(found->0) {
                let attr = resized(self.attrs[found->0], entry.size);
                (self.with_attr(attr), Ok(attr))
            } else {
                match file_type_of(entry.type_) {
                    None => (self, Err(Errno::Enoent)),
                    Some(kind) => {
                        let attr = new_attr(
                            self.next_inode,
                            kind,
                            entry.size,
                            entry.mode as u16,
                            1,
                            0,
                            now,
                        );
                        (self.with_inode(attr, root_path(entry.name)), Ok(attr))
                    },
                }
            },
        }
    }

    /// The attributes that are known without the server.
    pub open spec fn cached(self, ino: u64) -> Result<FileAttr, Errno> {
        if self.attrs.contains_key(ino) {
            Ok(self.attrs[ino])
        } else {
            Err(Errno::Enoent)
        }
    }

    /// The attributes of an inode of which the server lists `entry`, if it does.
    pub open spec fn getattr_step(self, ino: u64, entry: Option<EntryView>) -> (
        ClientView,
        Result<FileAttr, Errno>,
    ) {
        if entry is Some && self.attrs.contains_key(ino) {
            let attr = resized(self.attrs[ino], entry->0.size);
            (ClientView { attrs: self.attrs.insert(ino, attr), ..self }, Ok(attr))
        } else {
            (self, self.cached(ino))
        }
    }

    /// The entry of an inode in the listing of its directory.
    pub open spec fn own_entry(self, ino: u64, entries: Option<Seq<EntryView>>) -> Option<
        EntryView,
    > {
        if entries is Some && self.paths.contains_key(ino) {
            match outside::path_file_name_of(self.paths[ino]) {
                Some(name) => types::first_named(entries->0, name),
                None => None,
            }
        } else {
            None
        }
    }

    /// Why an inode can neither be read nor written: it is not known, it is no regular file, or
    /// its path is not known.
    pub open spec fn file_refusal(self, ino: u64) -> Option<Errno> {
        if !self.attrs.contains_key(ino) {
            Some(Errno::Enoent)
        } else if self.attrs[ino].kind != FileType::RegularFile {
            Some(Errno::Eisdir)
        } else if !self.paths.contains_key(ino) {
            Some(Errno::Eio)
        } else {
            None
        }
    }

    /// The request to read a file.
    pub open spec fn read_request(self, ino: u64, offset: i64, size: u32) -> Result<
        RequestView,
        Errno,
    > {
        match (self.file_refusal(ino), request::server_of(self.server_url)) {
            (Some(errno), _) => Err(errno),
            (None, Some(server)) => Ok(
                request::read_request_of(server, self.paths[ino], offset as u64, size as nat),
            ),
            (None, None) => Err(Errno::Eio),
        }
    }

    /// The request to write a file.
    pub open spec fn write_request(self, ino: u64, offset: i64, len: usize) -> Result<
        RequestView,
        Errno,
    > {
        match (self.file_refusal(ino), request::server_of(self.server_url)) {
            (Some(errno), _) => Err(errno),
            (None, Some(server)) => Ok(
                request::write_request_of(server, self.paths[ino], offset as u64, len as nat),
            ),
            (None, None) => Err(Errno::Eio),
        }
    }

    /// The request for a change of attributes, if the file is to get a new size.
    pub open spec fn setattr_request(self, ino: u64, size: Option<u64>) -> Result<
        Option<RequestView>,
        Errno,
    > {
        if !self.attrs.contains_key(ino) {
            Err(Errno::Enoent)
        } else {
            match (size, request::server_of(self.server_url)) {
                (None, _) => Ok(None),
                (Some(size), Some(server)) => if self.paths.contains_key(ino) {
                    Ok(Some(request::truncate_request_of(server, self.paths[ino], size)))
                } else {
                    Err(Errno::Eio)
                },
                (Some(size), None) => Err(Errno::Eio),
            }
        }
    }

    /// The directory that is to be listed for the attributes of an inode, if the server is needed.
    pub open spec fn getattr_listing(self, ino: u64) -> Option<Seq<char>> {
        if ino != ROOT_INODE && self.paths.contains_key(ino) {
            Some(parent_of(self.paths[ino]))
        } else {
            None
        }
    }

    /// The change of attributes; `truncated` says whether the server gave the file a new size.
    pub open spec fn setattr_step(
        self,
        ino: u64,
        changes: AttrChanges,
        truncated: bool,
        now: Timestamp,
    ) -> (ClientView, Result<FileAttr, Errno>) {
        if !self.attrs.contains_key(ino) {
            (self, Err(Errno::Enoent))
        } else if changes.size is Some && !truncated {
            (self, Err(Errno::Eio))
        } else {
            let attr = changed(self.attrs[ino], changes, now);
            (ClientView { attrs: self.attrs.insert(ino, attr), ..self }, Ok(attr))
        }
    }
}

/// The mounted file system.
#[derive(Debug)]
pub struct QuicFS {
    inodes: HashMap<u64, FileAttr>,
    paths: HashMap<u64, String>,
    next_inode: u64,
    server_url: String,
}

/// The texts of a map.
spec fn text_map(map: Map<u64, String>) -> Map<u64, Seq<char>> {
    map.map_values(|path: String| path@)
}

impl View for QuicFS {
    type V = ClientView;

    closed spec fn view(&self) -> ClientView {
        ClientView {
            attrs: self.inodes@,
            paths: text_map(self.paths@),
            next_inode: self.next_inode,
            server_url: self.server_url@,
        }
    }
}

/// How many blocks of 512 bytes hold `size` bytes.
pub fn block_count(size: u64) -> (blocks: u64)
    ensures
        blocks == blocks_of(size),
{
    if size % 512 == 0 {
        size / 512
    } else {
        size / 512 + 1
    }
}

/// The type of file that a listing names.
pub fn file_type(type_: &str) -> (kind: Option<FileType>)
    ensures
        kind == file_type_of(type_@),
{
    if text::same(type_, "file") {
        Some(FileType::RegularFile)
    } else if text::same(type_, "dir") {
        Some(FileType::Directory)
    } else {
        None
    }
}

/// Why a lookup is not even asked of the server: only the root directory is searched, and not for
/// hidden files.
pub fn lookup_refusal(parent: u64, name: &str) -> (refusal: Option<Errno>)
    ensures
        refusal == lookup_refused(parent, name@),
{
    if parent != ROOT_INODE {
        return Some(Errno::Enoent);
    }
    if name.unicode_len() > 0 && name.get_char(0) == '.' {
        return Some(Errno::Enoent);
    }
    None
}

/// Why a directory is not even asked of the server: only the root directory is listed.
pub fn readdir_refusal(ino: u64) -> (refusal: Option<Errno>)
    ensures
        refusal == readdir_refused(ino),
{
    if ino != ROOT_INODE {
        Some(Errno::Enoent)
    } else {
        None
    }
}

/// The directory that holds a file, where `parent` is the parent of its path.
pub fn parent_or_root(parent: Option<String>) -> (dir: String)
    ensures
        dir@ == holder_of(
            match parent {
                Some(parent) => Some(parent@),
                None => None,
            },
        ),
{
    match parent {
        Some(parent) => parent,
        None => "/".to_owned(),
    }
}

/// Answers a read with what the server sent.
pub fn read_reply(status: u16, body: Vec<u8>) -> (reply: Result<Vec<u8>, Errno>)
    ensures
        read_answered(reply, status, body@),
{
    match request::answer_error(status, body.as_slice()) {
        None => Ok(body),
        Some(_) => Err(Errno::Eio),
    }
}

/// Answers a write of `len` bytes with what the server said.
pub fn write_reply(status: u16, body: &[u8], len: usize) -> (reply: Result<u32, Errno>)
    ensures
        reply == write_answer(status, len),
{
    match request::answer_error(status, body) {
        None => Ok(len as u32),
        Some(_) => Err(Errno::Eio),
    }
}

impl QuicFS {
    /// Nothing is known yet but the root directory.
    pub fn new(server_url: String, now: Timestamp) -> (fs: QuicFS)
        ensures
            fs@.wf(),
            fs@ == ClientView::fresh(server_url@, now),
    {
        let root = FileAttr {
            ino: ROOT_INODE,
            size: 0,
            blocks: 0,
            atime: now,
            mtime: now,
            ctime: now,
            crtime: now,
            kind: FileType::Directory,
            perm: 0o755,
            nlink: 2,
            uid: 1000,
            gid: 1000,
            rdev: 0,
            flags: 0,
            blksize: 512,
        };
        let mut inodes: HashMap<u64, FileAttr> = HashMap::new();
        inodes.insert(ROOT_INODE, root);
        let fs = QuicFS { inodes, paths: HashMap::new(), next_inode: 2, server_url };
        proof {
            assert(fs@.paths =~= Map::<u64, Seq<char>>::empty());
            assert(fs@.attrs =~= Map::empty().insert(
                ROOT_INODE,
                new_attr(ROOT_INODE, FileType::Directory, 0, 0o755, 2, 0, now),
            ));
        }
        fs
    }

    /// The address of the server.
    pub fn server_url(&self) -> (url: &str)
        ensures
            url@ == self@.server_url,
    {
        self.server_url.as_str()
    }

    /// Whether there are numbers left for new inodes.
    pub fn has_room(&self) -> (room: bool)
        ensures
            room == (self@.next_inode < u64::MAX),
    {
        self.next_inode < u64::MAX
    }

    /// Finds an inode with that path. Where several have it, any of them may be found.
    pub fn find_inode(&self, path: &String) -> (found: Option<u64>)
        ensures
            self@.finds(path@, found),
    {
        for kv in it: self.paths.iter()
            invariant
                forall|i: int| 0 <= i < it.index() ==> (#[trigger] it.seq()[i]).1@ != path@,
        {
            let (ino, known) = kv;
            if *known == *path {
                return Some(*ino);
            }
        }
        None
    }

    /// Adds an inode.
    fn add_inode(&mut self, attr: FileAttr, path: String)
        requires
            old(self)@.wf(),
            old(self)@.next_inode < u64::MAX,
            attr.ino == old(self)@.next_inode,
            path@.len() > 0 && path@[0] == '/',
        ensures
            final(self)@ == old(self)@.with_inode(attr, path@),
            final(self)@.wf(),
    {
        let ino: u64 = self.next_inode;
        self.inodes.insert(ino, attr);
        self.paths.insert(ino, path);
        self.next_inode = ino + 1;
        proof {
            assert(self@.paths =~= old(self)@.paths.insert(ino, path@));
            assert(self@ =~= old(self)@.with_inode(attr, path@));
        }
    }

    /// Replaces the attributes of a known inode.
    fn put_attr(&mut self, ino: u64, attr: FileAttr)
        requires
            old(self)@.wf(),
            old(self)@.attrs.contains_key(ino),
            attr.ino == ino,
            attr.kind == old(self)@.attrs[ino].kind,
        ensures
            final(self)@ == (ClientView { attrs: old(self)@.attrs.insert(ino, attr), ..old(self)@ }),
            final(self)@.wf(),
    {
        self.inodes.insert(ino, attr);
    }

    /// Creates the file `name` in the root directory. `listed` says whether the server lists it,
    /// and `found` is an inode with its path.
    pub fn create_found(
        &mut self,
        listed: bool,
        found: Option<u64>,
        name: &str,
        mode: u32,
        flags: i32,
        now: Timestamp,
    ) -> (step: CreateStep)
        requires
            old(self)@.wf(),
            listed && found is Some && old(self)@.attrs.contains_key(found->0)
                || old(self)@.next_inode < u64::MAX,
        ensures
            (final(self)@, step) == old(self)@.create_step(listed, found, name@, mode, flags, now),
            final(self)@.wf(),
    {
        if listed {
            match found {
                Some(ino) => {
                    match self.inodes.get(&ino) {
                        Some(attr) => {
                            return CreateStep::Created(*attr);
                        },
                        None => {},
                    }
                },
                None => {},
            }
        }
        proof {
            reveal_strlit("/");
            assert("/"@ =~= seq!['/']);
        }
        let mut path: String = "/".to_owned();
        path.append(name);
        let attr = FileAttr {
            ino: self.next_inode,
            size: 0,
            blocks: 0,
            atime: now,
            mtime: now,
            ctime: now,
            crtime: now,
            kind: FileType::RegularFile,
            perm: mode as u16,
            nlink: 1,
            uid: 1000,
            gid: 1000,
            rdev: 0,
            flags: flags as u32,
            blksize: 512,
        };
        self.add_inode(attr, path);
        CreateStep::WriteEmpty(attr)
    }

    /// Creates the file `name` in the root directory, once that was listed or could not be.
    pub fn create(
        &mut self,
        name: &str,
        mode: u32,
        flags: i32,
        listing: Option<&DirList>,
        now: Timestamp,
    ) -> (step: CreateStep)
        requires
            old(self)@.wf(),
            listing is Some && !(types::first_named(listing->0@, name@) is Some && old(self)@.knows(
                root_path(name@),
            )) ==> old(self)@.next_inode < u64::MAX,
        ensures
            final(self)@.wf(),
            match listing {
                None => step == CreateStep::Failed(Errno::Eio) && final(self)@ == old(self)@,
                Some(list) => exists|found: Option<u64>| #[trigger]
                    old(self)@.finds(root_path(name@), found) && (final(self)@, step)
                        == old(self)@.create_step(
                        types::first_named(list@, name@) is Some,
                        found,
                        name@,
                        mode,
                        flags,
                        now,
                    ),
            },
    {
        match listing {
            None => CreateStep::Failed(Errno::Eio),
            Some(list) => {
                proof {
                    reveal_strlit("/");
                    assert("/"@ =~= seq!['/']);
                }
                let mut path: String = "/".to_owned();
                path.append(name);
                let found: Option<u64> = self.find_inode(&path);
                let listed: bool = list.find(name).is_some();
                proof {
                    assert(path@ =~= root_path(name@));
                    assert(old(self)@.finds(root_path(name@), found));
                }
                self.create_found(listed, found, name, mode, flags, now)
            },
        }
    }

    /// Ends the creation of a file; `written` says whether the server made it.
    pub fn create_finish(&mut self, attr: FileAttr, written: bool) -> (reply: Result<
        FileAttr,
        Errno,
    >)
        requires
            old(self)@.wf(),
            attr.ino != ROOT_INODE,
        ensures
            (final(self)@, reply) == old(self)@.create_end(attr, written),
            final(self)@.wf(),
    {
        if written {
            Ok(attr)
        } else {
            self.inodes.remove(&attr.ino);
            Err(Errno::Eio)
        }
    }

    /// Looks up a file of which the server lists `entry`; `found` is an inode with its path.
    pub fn lookup_found(&mut self, entry: Option<&DirEntry>, found: Option<u64>, now: Timestamp)
        -> (reply: Result<FileAttr, Errno>)
        requires
            old(self)@.wf(),
            entry is Some && file_type_of(entry->0@.type_) is Some && !(found is Some
                && old(self)@.attrs.contains_key(found->0)) ==> old(self)@.next_inode < u64::MAX,
        ensures
            (final(self)@, reply) == old(self)@.lookup_step(
                match entry {
                    Some(entry) => Some(entry@),
                    None => None,
                },
                found,
                now,
            ),
            final(self)@.wf(),
    {
        let entry: &DirEntry = match entry {
            Some(entry) => entry,
            None => {
                return Err(Errno::Enoent);
            },
        };
        match found {
            Some(ino) => {
                let known: Option<FileAttr> = match self.inodes.get(&ino) {
                    Some(attr) => Some(*attr),
                    None => None,
                };
                match known {
                    Some(attr) => {
                        let mut attr: FileAttr = attr;
                        attr.size = entry.size;
                        attr.blocks = block_count(entry.size);
                        self.put_attr(ino, attr);
                        return Ok(attr);
                    },
                    None => {},
                }
            },
            None => {},
        }
        let kind: FileType = match file_type(entry.type_.as_str()) {
            Some(kind) => kind,
            None => {
                return Err(Errno::Enoent);
            },
        };
        proof {
            reveal_strlit("/");
            assert("/"@ =~= seq!['/']);
        }
        let mut path: String = "/".to_owned();
        path.append(entry.name.as_str());
        let attr = FileAttr {
            ino: self.next_inode,
            size: entry.size,
            blocks: block_count(entry.size),
            atime: now,
            mtime: now,
            ctime: now,
            crtime: now,
            kind,
            perm: entry.mode as u16,
            nlink: 1,
            uid: 1000,
            gid: 1000,
            rdev: 0,
            flags: 0,
            blksize: 512,
        };
        self.add_inode(attr, path);
        Ok(attr)
    }

    /// Looks up the file `name` in the root directory, once that was listed or could not be.
    pub fn lookup(&mut self, name: &str, listing: Option<&DirList>, now: Timestamp) -> (reply:
        Result<FileAttr, Errno>)
        requires
            old(self)@.wf(),
            listing is Some && types::first_named(listing->0@, name@) is Some
                ==> old(self)@.next_inode < u64::MAX,
        ensures
            final(self)@.wf(),
            match listing {
                None => reply == Err::<FileAttr, Errno>(Errno::Eio) && final(self)@ == old(self)@,
                Some(list) => exists|found: Option<u64>| #[trigger]
                    old(self)@.finds(root_path(name@), found) && (final(self)@, reply)
                        == old(self)@.lookup_step(types::first_named(list@, name@), found, now),
            },
    {
        match listing {
            None => Err(Errno::Eio),
            Some(list) => {
                proof {
                    reveal_strlit("/");
                    assert("/"@ =~= seq!['/']);
                }
                let mut path: String = "/".to_owned();
                path.append(name);
                let found: Option<u64> = self.find_inode(&path);
                proof {
                    assert(path@ =~= root_path(name@));
                    assert(old(self)@.finds(root_path(name@), found));
                }
                self.lookup_found(list.find(name), found, now)
            },
        }
    }

    /// The attributes that are known without the server.
    fn cached_attr(&self, ino: u64) -> (reply: Result<FileAttr, Errno>)
        ensures
            reply == self@.cached(ino),
    {
        match self.inodes.get(&ino) {
            Some(attr) => Ok(*attr),
            None => Err(Errno::Enoent),
        }
    }

    /// Finds the attributes of an inode: those of the root directory are known; for another one
    /// the server is to list the directory that holds it, if its path is known.
    pub fn getattr(&self, ino: u64) -> (step: GetattrStep)
        requires
            self@.wf(),
        ensures
            match self@.getattr_listing(ino) {
                Some(meant) => step matches GetattrStep::List(dir) && dir@ == meant,
                None => step matches GetattrStep::Reply(reply) && reply == self@.cached(ino),
            },
            ino != ROOT_INODE && self@.paths.contains_key(ino) && outside::is_file_name(
                self@.paths[ino].skip(1),
            ) ==> (step matches GetattrStep::List(dir) && dir@ == "/"@),
    {
        if ino == ROOT_INODE {
            match self.inodes.get(&ino) {
                Some(attr) => {
                    return GetattrStep::Reply(Ok(*attr));
                },
                None => {},
            }
        }
        match self.paths.get(&ino) {
            Some(path) => {
                proof {
                    assert(self@.paths[ino] == path@);
                    reveal_strlit("/");
                    assert("/"@ =~= seq!['/']);
                }
                GetattrStep::List(parent_or_root(outside::path_parent(path.as_str())))
            },
            None => GetattrStep::Reply(self.cached_attr(ino)),
        }
    }

    /// Answers with the attributes of an inode of which the server lists `entry`, if it does.
    pub fn getattr_entry(&mut self, ino: u64, entry: Option<&DirEntry>) -> (reply: Result<
        FileAttr,
        Errno,
    >)
        requires
            old(self)@.wf(),
        ensures
            (final(self)@, reply) == old(self)@.getattr_step(
                ino,
                match entry {
                    Some(entry) => Some(entry@),
                    None => None,
                },
            ),
            final(self)@.wf(),
    {
        match (entry, self.cached_attr(ino)) {
            (Some(entry), Ok(known)) => {
                let mut attr: FileAttr = known;
                attr.size = entry.size;
                attr.blocks = block_count(entry.size);
                self.put_attr(ino, attr);
                Ok(attr)
            },
            (_, cached) => cached,
        }
    }

    /// Answers with the attributes of an inode, once its directory was listed or could not be.
    pub fn getattr_finish(&mut self, ino: u64, listing: Option<&DirList>) -> (reply: Result<
        FileAttr,
        Errno,
    >)
        requires
            old(self)@.wf(),
        ensures
            (final(self)@, reply) == old(self)@.getattr_step(
                ino,
                old(self)@.own_entry(
                    ino,
                    match listing {
                        Some(list) => Some(list@),
                        None => None,
                    },
                ),
            ),
            final(self)@.wf(),
            old(self)@.paths.contains_key(ino) && outside::is_file_name(
                old(self)@.paths[ino].skip(1),
            ) && listing is Some ==> (final(self)@, reply) == old(self)@.getattr_step(
                ino,
                types::first_named(listing->0@, old(self)@.paths[ino].skip(1)),
            ),
    {
        let name: Option<String> = match self.paths.get(&ino) {
            Some(path) => {
                proof {
                    assert(self@.paths[ino] == path@);
                }
                outside::path_file_name(path.as_str())
            },
            None => None,
        };
        let entry: Option<&DirEntry> = match (listing, &name) {
            (Some(list), Some(name)) => list.find(name.as_str()),
            _ => None,
        };
        self.getattr_entry(ino, entry)
    }

    /// Why an inode can neither be read nor written.
    pub fn refuse_file(&self, ino: u64) -> (refusal: Option<Errno>)
        ensures
            refusal == self@.file_refusal(ino),
    {
        match self.inodes.get(&ino) {
            Some(attr) => if attr.kind != FileType::RegularFile {
                Some(Errno::Eisdir)
            } else if self.paths.contains_key(&ino) {
                None
            } else {
                Some(Errno::Eio)
            },
            None => Some(Errno::Enoent),
        }
    }

    /// Reads `size` bytes of a file from `offset` on: gives the request for the server, to whose
    /// answer [`read_reply`] is the reply.
    pub fn read(&self, ino: u64, offset: i64, size: u32) -> (request: Result<Request, Errno>)
        requires
            self@.file_refusal(ino) is None ==> 1 <= (offset as u64) + size <= u64::MAX,
        ensures
            asked(request, self@.read_request(ino, offset, size)),
    {
        match self.refuse_file(ino) {
            Some(errno) => {
                return Err(errno);
            },
            None => {},
        }
        match self.paths.get(&ino) {
            Some(path) => match request::read_file(
                self.server_url.as_str(),
                path.as_str(),
                offset as u64,
                size,
            ) {
                Ok(request) => Ok(request),
                Err(_) => Err(Errno::Eio),
            },
            None => Err(Errno::Eio),
        }
    }

    /// Writes `len` bytes to a file at `offset`: gives the request for the server, to whose answer
    /// [`write_reply`] is the reply.
    pub fn write(&self, ino: u64, offset: i64, len: usize) -> (request: Result<Request, Errno>)
        requires
            self@.file_refusal(ino) is None ==> (offset as u64) + len <= u64::MAX,
        ensures
            asked(request, self@.write_request(ino, offset, len)),
    {
        match self.refuse_file(ino) {
            Some(errno) => {
                return Err(errno);
            },
            None => {},
        }
        match self.paths.get(&ino) {
            Some(path) => match request::write_file(
                self.server_url.as_str(),
                path.as_str(),
                offset as u64,
                len,
            ) {
                Ok(request) => Ok(request),
                Err(_) => Err(Errno::Eio),
            },
            None => Err(Errno::Eio),
        }
    }

    /// Lists the root directory from `offset` on, once the server listed it or could not. All
    /// files stand under the number of the next inode.
    pub fn readdir(&self, listing: Option<&DirList>, offset: i64) -> (reply: Result<
        Vec<DirItem>,
        Errno,
    >)
        ensures
            match listing {
                None => reply matches Err(Errno::Eio),
                Some(list) => reply matches Ok(items) && items@.map_values(
                    |item: DirItem| item@,
                ) == items_from(root_items(list@, self@.next_inode), offset as usize),
            },
    {
        let list: &DirList = match listing {
            Some(list) => list,
            None => {
                return Err(Errno::Eio);
            },
        };
        let mut all: Vec<DirItem> = Vec::new();
        all.push(
            DirItem { ino: ROOT_INODE, next: 1, kind: FileType::Directory, name: ".".to_owned() },
        );
        all.push(
            DirItem { ino: ROOT_INODE, next: 2, kind: FileType::Directory, name: "..".to_owned() },
        );
        let mut count: u128 = 2;
        let mut i: usize = 0;
        proof {
            assert(list@.take(0).len() == 0);
            assert(all@.map_values(|item: DirItem| item@) =~= root_items(
                list@.take(0),
                self@.next_inode,
            ));
        }
        while i < list.entries.len()
            invariant
                i <= list.entries.len(),
                count == all@.len(),
                count <= i + 2,
                all@.map_values(|item: DirItem| item@) == root_items(
                    list@.take(i as int),
                    self@.next_inode,
                ),
            decreases list.entries.len() - i,
        {
            let entry: &DirEntry = &list.entries[i];
            let ghost before = all@.map_values(|item: DirItem| item@);
            proof {
                assert(list@.take(i + 1).drop_last() =~= list@.take(i as int));
                assert(list@.take(i + 1).last() == entry@);
                assert(before.len() == count);
            }
            match file_type(entry.type_.as_str()) {
                Some(kind) => {
                    let item = DirItem {
                        ino: self.next_inode,
                        next: (count + 1) as i64,
                        kind,
                        name: entry.name.clone(),
                    };
                    all.push(item);
                    count = count + 1;
                    proof {
                        assert(all@.map_values(|item: DirItem| item@) =~= before.push(item@));
                    }
                },
                None => {},
            }
            i = i + 1;
        }
        let skip: usize = offset as usize;
        proof {
            assert(list@.take(list@.len() as int) =~= list@);
        }
        let ghost items = all@.map_values(|item: DirItem| item@);
        if skip >= all.len() {
            let none: Vec<DirItem> = Vec::new();
            proof {
                assert(none@.map_values(|item: DirItem| item@) =~= Seq::<ItemView>::empty());
            }
            return Ok(none);
        }
        let rest: Vec<DirItem> = all.split_off(skip);
        proof {
            assert(rest@.map_values(|item: DirItem| item@) =~= items.skip(skip as int));
        }
        Ok(rest)
    }

    /// Starts a change of attributes: gives the request for the server, if the file is to get a
    /// new size.
    pub fn setattr(&self, ino: u64, size: Option<u64>) -> (request: Result<Option<Request>, Errno>)
        ensures
            match self@.setattr_request(ino, size) {
                Ok(Some(meant)) => request matches Ok(Some(request)) && request@ == meant,
                Ok(None) => request matches Ok(None),
                Err(errno) => request == Err::<Option<Request>, Errno>(errno),
            },
    {
        if !self.inodes.contains_key(&ino) {
            return Err(Errno::Enoent);
        }
        let size: u64 = match size {
            Some(size) => size,
            None => {
                return Ok(None);
            },
        };
        match self.paths.get(&ino) {
            Some(path) => match request::truncate_file(
                self.server_url.as_str(),
                path.as_str(),
                size,
            ) {
                Ok(request) => Ok(Some(request)),
                Err(_) => Err(Errno::Eio),
            },
            None => Err(Errno::Eio),
        }
    }

    /// Ends a change of attributes. Where the file is to get a new size, `truncated` says whether
    /// the server gave it that.
    pub fn setattr_finish(
        &mut self,
        ino: u64,
        changes: AttrChanges,
        truncated: bool,
        now: Timestamp,
    ) -> (reply: Result<FileAttr, Errno>)
        requires
            old(self)@.wf(),
        ensures
            (final(self)@, reply) == old(self)@.setattr_step(ino, changes, truncated, now),
            final(self)@.wf(),
    {
        let mut attr: FileAttr = match self.cached_attr(ino) {
            Ok(attr) => attr,
            Err(errno) => {
                return Err(errno);
            },
        };
        if changes.size.is_some() && !truncated {
            return Err(Errno::Eio);
        }
        match changes.mode {
            Some(mode) => {
                attr.perm = mode as u16;
            },
            None => {},
        }
        match changes.uid {
            Some(uid) => {
                attr.uid = uid;
            },
            None => {},
        }
        match changes.gid {
            Some(gid) => {
                attr.gid = gid;
            },
            None => {},
        }
        match changes.size {
            Some(size) => {
                attr.size = size;
            },
            None => {},
        }
        match changes.atime {
            Some(TimeOrNow::Now) => {
                attr.atime = now;
            },
            Some(TimeOrNow::SpecificTime(time)) => {
                attr.atime = time;
            },
            None => {},
        }
        match changes.mtime {
            Some(TimeOrNow::Now) => {
                attr.mtime = now;
            },
            Some(TimeOrNow::SpecificTime(time)) => {
                attr.mtime = time;
            },
            None => {},
        }
        match changes.flags {
            Some(flags) => {
                attr.flags = flags;
            },
            None => {},
        }
        self.put_attr(ino, attr);
        Ok(attr)
    }
}

} // verus!
