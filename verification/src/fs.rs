//! The files that the server serves: where a requested path leads, and what a listing says.

use crate::calendar;
use crate::error::{ErrorCode, FsError};
use crate::outside;
use crate::text;
use crate::types::{DirEntry, DirList, EntryView, FileStat};
use vstd::prelude::*;

verus! {

/// The directory whose files are served.
#[derive(Debug)]
pub struct FileSystem {
    root: String,
}

/// What the operating system says of one entry of a directory. A point in time is given in
/// seconds since the start of 1970, and is absent if it lies before.
#[derive(Debug)]
pub struct EntryMetadata {
    pub name: String,
    pub is_dir: bool,
    pub len: u64,
    pub mode: u32,
    pub modified: Option<u64>,
    pub accessed: Option<u64>,
    pub created: Option<u64>,
}

impl EntryMetadata {
    /// All its points in time can be told.
    pub open spec fn dated(self) -> bool {
        self.modified is Some && self.accessed is Some && self.created is Some
    }

    /// The entry as a listing says it: only the nine permission bits of the mode, and the points
    /// in time in ISO 8601.
    pub open spec fn listed(self) -> EntryView {
        EntryView {
            name: self.name@,
            type_: if self.is_dir {
                "dir"@
            } else {
                "file"@
            },
            size: self.len,
            mode: self.mode & 0o777,
            mtime: calendar::iso8601(self.modified->0 as nat),
            atime: calendar::iso8601(self.accessed->0 as nat),
            ctime: calendar::iso8601(self.created->0 as nat),
        }
    }
}

/// The path `relative` as seen from `base`.
pub open spec fn joined(base: Seq<char>, relative: Seq<char>) -> Seq<char> {
    if relative.len() > 0 && relative[0] == '/' {
        relative
    } else if base.len() == 0 || base.last() == '/' {
        base + relative
    } else {
        base + seq!['/'] + relative
    }
}

/// What follows a route in a requested path, without slashes at the front. The route is taken off
/// once; a path that does not start with it is taken as it is.
pub open spec fn below_route(path: Seq<char>, route: Seq<char>) -> Seq<char> {
    let rest = if path == route || (route + seq!['/']).is_prefix_of(path) {
        path.skip(route.len() as int)
    } else {
        path
    };
    text::trim_prefixes(rest, "/"@)
}

/// What a requested path names below the root, for a request on a file.
pub open spec fn file_below_root(path: Seq<char>) -> Seq<char> {
    below_route(path, "/file"@)
}

/// What a requested path names below the root, for a request on a directory.
pub open spec fn dir_below_root(path: Seq<char>) -> Seq<char> {
    below_route(path, "/dir"@)
}

/// What a requested path names below the root, for a request on attributes.
pub open spec fn attr_below_root(path: Seq<char>) -> Seq<char> {
    below_route(path, "/attr"@)
}

/// How many directories a walk along the parts of a path has gone down, if it never goes up from
/// where it started.
pub open spec fn steps_down(parts: Seq<Seq<char>>) -> Option<nat>
    decreases parts.len(),
{
    if parts.len() == 0 {
        Some(0)
    } else {
        let last = parts.last();
        match steps_down(parts.drop_last()) {
            None => None,
            Some(depth) => if last.len() == 0 || last == "."@ {
                Some(depth)
            } else if last != ".."@ {
                Some(depth + 1)
            } else if depth > 0 {
                Some((depth - 1) as nat)
            } else {
                None
            },
        }
    }
}

/// How deep a relative path lies below where it starts: 0 is the start itself. A path that leaves
/// it on its way has no depth.
pub open spec fn depth_of(relative: Seq<char>) -> Option<nat> {
    steps_down(text::parts(relative, '/'))
}

/// The message for a path that leads to where it must not.
pub open spec fn denied_message(path: Seq<char>) -> Seq<char> {
    "Permission denied: "@ + path
}

/// `result` is the location to which `path` leads, or says that it may not be reached.
pub open spec fn located(
    result: Result<String, FsError>,
    path: Seq<char>,
    location: Option<Seq<char>>,
) -> bool {
    match location {
        Some(location) => result matches Ok(full_path) && full_path@ == location,
        None => result matches Err(error) && error.code == ErrorCode::Eacces && error.message@
            == denied_message(path),
    }
}

/// Why a path cannot be listed as a directory: the code and the message of the error. `shown` is
/// the path as a message shows it.
pub open spec fn listing_refusal(shown: Seq<char>, exists: bool, is_dir: bool) -> Option<
    (ErrorCode, Seq<char>),
> {
    if !exists {
        Some((ErrorCode::Enoent, "Directory does not exist: "@ + shown))
    } else if !is_dir {
        Some((ErrorCode::Enoent, "Path is not a directory: "@ + shown))
    } else {
        None
    }
}

/// Refuses to list what is no directory; `shown` is the path as a message shows it.
pub fn refuse_listing(shown: &str, exists: bool, is_dir: bool) -> (refusal: Option<FsError>)
    ensures
        match listing_refusal(shown@, exists, is_dir) {
            Some((code, message)) => refusal matches Some(error) && error.code == code
                && error.message@ == message,
            None => refusal is None,
        },
{
    if !exists {
        let mut message: String = "Directory does not exist: ".to_owned();
        message.append(shown);
        Some(FsError { code: ErrorCode::Enoent, message })
    } else if !is_dir {
        let mut message: String = "Path is not a directory: ".to_owned();
        message.append(shown);
        Some(FsError { code: ErrorCode::Enoent, message })
    } else {
        None
    }
}

/// Why a file or a directory cannot be renamed.
pub open spec fn rename_refusal(source_exists: bool, destination_exists: bool) -> Option<
    (ErrorCode, Seq<char>),
> {
    if !source_exists {
        Some((ErrorCode::Enoent, "Source not found"@))
    } else if destination_exists {
        Some((ErrorCode::Eexist, "Destination exists"@))
    } else {
        None
    }
}

/// Refuses to rename what is not there, or to a name that is taken.
pub fn refuse_rename(source_exists: bool, destination_exists: bool) -> (refusal: Option<FsError>)
    ensures
        match rename_refusal(source_exists, destination_exists) {
            Some((code, message)) => refusal matches Some(error) && error.code == code
                && error.message@ == message,
            None => refusal is None,
        },
{
    if !source_exists {
        Some(FsError { code: ErrorCode::Enoent, message: "Source not found".to_owned() })
    } else if destination_exists {
        Some(FsError { code: ErrorCode::Eexist, message: "Destination exists".to_owned() })
    } else {
        None
    }
}

/// The error for a path that leads to where it must not.
fn denied(path: &str) -> (error: FsError)
    ensures
        error.code == ErrorCode::Eacces,
        error.message@ == denied_message(path@),
{
    let mut message: String = "Permission denied: ".to_owned();
    message.append(path);
    FsError { code: ErrorCode::Eacces, message }
}

/// What follows a route in a requested path.
fn part_below<'a>(path: &'a str, route: &str) -> (below: &'a str)
    ensures
        below@ == below_route(path@, route@),
{
    proof {
        reveal_strlit("/");
        assert("/"@ =~= seq!['/']);
    }
    let mut start: String = route.to_owned();
    start.append("/");
    proof {
        assert(start@ =~= route@ + seq!['/']);
        if start@.is_prefix_of(path@) {
            assert(path@.subrange(0, route@.len() as int) =~= start@.subrange(
                0,
                route@.len() as int,
            ));
            assert(start@.subrange(0, route@.len() as int) =~= route@);
        }
        assert(path@ == route@ ==> path@.subrange(0, route@.len() as int) =~= route@);
    }
    if text::same(path, route) || text::has_prefix(path, start.as_str()) {
        text::trim_start(text::without_prefix(path, route), "/")
    } else {
        text::trim_start(path, "/")
    }
}

/// How deep a relative path lies below where it starts.
pub fn path_depth(relative: &str) -> (depth: Option<usize>)
    ensures
        match depth {
            Some(depth) => depth_of(relative@) == Some(depth as nat),
            None => depth_of(relative@) is None,
        },
{
    let pieces: Vec<String> = text::split_all(relative, '/');
    let ghost all = text::texts(pieces@);
    let mut depth: usize = 0;
    let mut i: usize = 0;
    proof {
        assert(all.take(0).len() == 0);
    }
    while i < pieces.len()
        invariant
            i <= pieces.len(),
            all == text::texts(pieces@),
            all == text::parts(relative@, '/'),
            depth <= i,
            steps_down(all.take(i as int)) == Some(depth as nat),
        decreases pieces.len() - i,
    {
        let piece: &str = pieces[i].as_str();
        proof {
            assert(all.take(i + 1).drop_last() =~= all.take(i as int));
            assert(all.take(i + 1).last() == piece@);
        }
        if piece.unicode_len() == 0 || text::same(piece, ".") {
        } else if !text::same(piece, "..") {
            depth = depth + 1;
        } else if depth > 0 {
            depth = depth - 1;
        } else {
            proof {
                left_for_good(all.take(i + 1), all.skip(i + 1));
                assert(all.take(i + 1) + all.skip(i + 1) =~= all);
            }
            return None;
        }
        i = i + 1;
    }
    proof {
        assert(all.take(all.len() as int) =~= all);
    }
    Some(depth)
}

/// A walk that has left where it started does not come back.
pub proof fn left_for_good(a: Seq<Seq<char>>, b: Seq<Seq<char>>)
    requires
        steps_down(a) is None,
    ensures
        steps_down(a + b) is None,
    decreases b.len(),
{
    if b.len() == 0 {
        assert(a + b =~= a);
    } else {
        assert((a + b).drop_last() =~= a + b.drop_last());
        left_for_good(a, b.drop_last());
    }
}

/// The path `relative` as seen from `base`.
fn join(base: &str, relative: &str) -> (path: String)
    ensures
        path@ == joined(base@, relative@),
{
    proof {
        reveal_strlit("/");
        assert("/"@ =~= seq!['/']);
    }
    if relative.unicode_len() > 0 && relative.get_char(0) == '/' {
        relative.to_owned()
    } else {
        let mut path: String = base.to_owned();
        let len: usize = base.unicode_len();
        if len > 0 && base.get_char(len - 1) != '/' {
            path.append("/");
        }
        path.append(relative);
        path
    }
}

/// The message for an entry with a point in time before 1970.
pub open spec fn undated_message() -> Seq<char> {
    "second time provided was later than self"@
}

/// One entry as a listing says it. One with a point in time before 1970 cannot be told.
fn list_entry(entry: &EntryMetadata) -> (listed: Result<DirEntry, FsError>)
    ensures
        if entry.dated() {
            listed matches Ok(listed) && listed@ == entry.listed()
        } else {
            listed matches Err(error) && error.code == ErrorCode::Eio && error.message@
                == undated_message()
        },
{
    match (entry.modified, entry.accessed, entry.created) {
        (Some(modified), Some(accessed), Some(created)) => Ok(
            DirEntry {
                name: entry.name.clone(),
                type_: if entry.is_dir {
                    "dir".to_owned()
                } else {
                    "file".to_owned()
                },
                size: entry.len,
                mode: entry.mode & 0o777,
                mtime: calendar::iso8601_text(modified),
                atime: calendar::iso8601_text(accessed),
                ctime: calendar::iso8601_text(created),
            },
        ),
        _ => Err(
            FsError {
                code: ErrorCode::Eio,
                message: "second time provided was later than self".to_owned(),
            },
        ),
    }
}

/// `listing` is what is told of the directory at `location`, to which `path` leads: its entries in
/// order, or why it cannot be listed.
pub open spec fn listing_told(
    listing: Result<DirList, FsError>,
    location: Option<Seq<char>>,
    path: Seq<char>,
    exists: bool,
    is_dir: bool,
    entries: Seq<EntryMetadata>,
) -> bool {
    match location {
        None => listing matches Err(error) && error.code == ErrorCode::Eacces && error.message@
            == denied_message(path),
        Some(location) => match listing_refusal(outside::path_shown(location), exists, is_dir) {
            Some((code, message)) => listing matches Err(error) && error.code == code
                && error.message@ == message,
            None => if forall|i: int|
                0 <= i < entries.len() ==> (#[trigger] entries[i]).dated() {
                listing matches Ok(list) && list@ == entries.map_values(
                    |entry: EntryMetadata| entry.listed(),
                )
            } else {
                listing matches Err(error) && error.code == ErrorCode::Eio && error.message@
                    == undated_message()
            },
        },
    }
}

/// `stat` is what is told of one file or directory.
pub open spec fn stat_told(stat: Result<FileStat, FsError>, entry: EntryMetadata) -> bool {
    if entry.dated() {
        stat matches Ok(stat) && stat@ == entry.listed()
    } else {
        stat matches Err(error) && error.code == ErrorCode::Eio && error.message@
            == undated_message()
    }
}

/// The attributes of one file or directory.
pub fn file_stat(entry: &EntryMetadata) -> (stat: Result<FileStat, FsError>)
    ensures
        stat_told(stat, *entry),
{
    match list_entry(entry) {
        Ok(entry) => Ok(
            FileStat {
                name: entry.name,
                type_: entry.type_,
                size: entry.size,
                mode: entry.mode,
                mtime: entry.mtime,
                atime: entry.atime,
                ctime: entry.ctime,
            },
        ),
        Err(error) => Err(error),
    }
}

impl FileSystem {
    /// The path of the directory that is served.
    pub closed spec fn root(&self) -> Seq<char> {
        self.root@
    }

    /// The location of the file at `below`, if that lies at or below the root.
    pub open spec fn file_at(&self, below: Seq<char>) -> Option<Seq<char>> {
        if depth_of(below) is Some {
            Some(joined(self.root(), below))
        } else {
            None
        }
    }

    /// The location of what lies at `below`, which may be the root, if that lies at or below the
    /// root.
    pub open spec fn location_below(&self, below: Seq<char>) -> Option<Seq<char>> {
        if depth_of(below) is Some {
            Some(
                if below.len() == 0 {
                    self.root()
                } else {
                    joined(self.root(), below)
                },
            )
        } else {
            None
        }
    }

    /// The location of what lies at `below`, if that lies below the root and is not the root.
    pub open spec fn entry_below(&self, below: Seq<char>) -> Option<Seq<char>> {
        if depth_of(below) is Some && depth_of(below)->0 > 0 {
            Some(joined(self.root(), below))
        } else {
            None
        }
    }

    /// Where a requested path leads, for a request on a file.
    pub open spec fn file_location(&self, path: Seq<char>) -> Option<Seq<char>> {
        self.file_at(file_below_root(path))
    }

    /// Where a requested path leads, for a request on a directory.
    pub open spec fn dir_location(&self, path: Seq<char>) -> Option<Seq<char>> {
        self.location_below(dir_below_root(path))
    }

    /// Where a requested path leads, for a request on attributes.
    pub open spec fn attr_location(&self, path: Seq<char>) -> Option<Seq<char>> {
        self.location_below(attr_below_root(path))
    }

    /// Serves the files below `root`.
    pub fn new(root: String) -> (fs: Result<FileSystem, FsError>)
        ensures
            fs matches Ok(fs) && fs.root() == root@,
    {
        Ok(FileSystem { root })
    }

    /// The path of the directory that is served.
    pub fn root_path(&self) -> (root: &str)
        ensures
            root@ == self.root(),
    {
        self.root.as_str()
    }

    /// The location of what lies at `below`.
    fn reach(&self, path: &str, below: &str) -> (full_path: Result<String, FsError>)
        ensures
            located(full_path, path@, self.location_below(below@)),
    {
        if path_depth(below).is_none() {
            Err(denied(path))
        } else if below.unicode_len() == 0 {
            Ok(self.root.clone())
        } else {
            Ok(join(self.root.as_str(), below))
        }
    }

    /// The location of what lies at `below` and is not the root.
    fn reach_entry(&self, path: &str, below: &str) -> (full_path: Result<String, FsError>)
        ensures
            located(full_path, path@, self.entry_below(below@)),
    {
        match path_depth(below) {
            Some(depth) => if depth > 0 {
                Ok(join(self.root.as_str(), below))
            } else {
                Err(denied(path))
            },
            None => Err(denied(path)),
        }
    }

    /// Where a requested path leads, for a request on a file. A path that leaves the root is
    /// refused.
    pub fn file_path(&self, path: &str) -> (full_path: Result<String, FsError>)
        ensures
            located(full_path, path@, self.file_location(path@)),
    {
        let below: &str = part_below(path, "/file");
        if path_depth(below).is_none() {
            Err(denied(path))
        } else {
            Ok(join(self.root.as_str(), below))
        }
    }

    /// Where a requested path leads, for a request on a directory. A path that leaves the root is
    /// refused.
    pub fn dir_path(&self, path: &str) -> (full_path: Result<String, FsError>)
        ensures
            located(full_path, path@, self.dir_location(path@)),
    {
        self.reach(path, part_below(path, "/dir"))
    }

    /// Where a requested path leads, for a request on attributes. A path that leaves the root is
    /// refused.
    pub fn attr_path(&self, path: &str) -> (full_path: Result<String, FsError>)
        ensures
            located(full_path, path@, self.attr_location(path@)),
    {
        self.reach(path, part_below(path, "/attr"))
    }

    /// Where a requested path leads, for a file that is to be removed or renamed. The root itself
    /// is refused too.
    pub fn file_entry_path(&self, path: &str) -> (full_path: Result<String, FsError>)
        ensures
            located(full_path, path@, self.entry_below(file_below_root(path@))),
    {
        self.reach_entry(path, part_below(path, "/file"))
    }

    /// Where a requested path leads, for a directory that is to be removed. The root itself is
    /// refused too.
    pub fn dir_entry_path(&self, path: &str) -> (full_path: Result<String, FsError>)
        ensures
            located(full_path, path@, self.entry_below(dir_below_root(path@))),
    {
        self.reach_entry(path, part_below(path, "/dir"))
    }

    /// The listing of a directory, made of what the operating system says: whether the path
    /// exists, whether it is a directory, and its entries.
    pub fn list_directory(
        &self,
        path: &str,
        exists: bool,
        is_dir: bool,
        entries: Vec<EntryMetadata>,
    ) -> (listing: Result<DirList, FsError>)
        ensures
            listing_told(listing, self.dir_location(path@), path@, exists, is_dir, entries@),
    {
        let full_path: String = match self.dir_path(path) {
            Ok(full_path) => full_path,
            Err(error) => {
                return Err(error);
            },
        };
        let shown: String = outside::show_path(full_path.as_str());
        match refuse_listing(shown.as_str(), exists, is_dir) {
            Some(error) => {
                return Err(error);
            },
            None => {},
        }
        let mut list: Vec<DirEntry> = Vec::new();
        let mut i: usize = 0;
        while i < entries.len()
            invariant
                i <= entries.len(),
                exists && is_dir,
                self.dir_location(path@) is Some,
                list@.len() == i,
                forall|k: int| 0 <= k < i ==> (#[trigger] entries@[k]).dated(),
                forall|k: int| 0 <= k < i ==> (#[trigger] list@[k])@ == entries@[k].listed(),
            decreases entries.len() - i,
        {
            match list_entry(&entries[i]) {
                Ok(entry) => {
                    list.push(entry);
                },
                Err(error) => {
                    proof {
                        assert(!entries@[i as int].dated());
                    }
                    return Err(error);
                },
            }
            i = i + 1;
        }
        let listing = DirList { entries: list };
        proof {
            assert(listing@ =~= entries@.map_values(|entry: EntryMetadata| entry.listed()));
        }
        Ok(listing)
    }
}

} // verus!
