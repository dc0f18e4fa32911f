//! What the server tells of files and directories.

use vstd::prelude::*;

verus! {

/// One entry of a directory.
#[derive(Debug)]
pub struct DirEntry {
    pub name: String,
    /// `file` or `dir`.
    pub type_: String,
    pub size: u64,
    /// The Unix permissions.
    pub mode: u32,
    pub mtime: String,
    pub atime: String,
    pub ctime: String,
}

/// The entries of a directory.
#[derive(Debug)]
pub struct DirList {
    pub entries: Vec<DirEntry>,
}

/// The attributes of one file or directory.
#[derive(Debug)]
pub struct FileStat {
    pub name: String,
    /// `file` or `dir`.
    pub type_: String,
    pub size: u64,
    /// The Unix permissions.
    pub mode: u32,
    pub mtime: String,
    pub atime: String,
    pub ctime: String,
}

/// What a [`DirEntry`] or a [`FileStat`] says.
pub struct EntryView {
    pub name: Seq<char>,
    pub type_: Seq<char>,
    pub size: u64,
    pub mode: u32,
    pub mtime: Seq<char>,
    pub atime: Seq<char>,
    pub ctime: Seq<char>,
}

impl View for DirEntry {
    type V = EntryView;

    open spec fn view(&self) -> EntryView {
        EntryView {
            name: self.name@,
            type_: self.type_@,
            size: self.size,
            mode: self.mode,
            mtime: self.mtime@,
            atime: self.atime@,
            ctime: self.ctime@,
        }
    }
}

impl View for FileStat {
    type V = EntryView;

    open spec fn view(&self) -> EntryView {
        EntryView {
            name: self.name@,
            type_: self.type_@,
            size: self.size,
            mode: self.mode,
            mtime: self.mtime@,
            atime: self.atime@,
            ctime: self.ctime@,
        }
    }
}

impl View for DirList {
    type V = Seq<EntryView>;

    open spec fn view(&self) -> Seq<EntryView> {
        self.entries@.map_values(|entry: DirEntry| entry@)
    }
}

/// `i` is the index of the first of the entries with that name.
pub open spec fn first_named_at(entries: Seq<EntryView>, name: Seq<char>, i: int) -> bool {
    &&& 0 <= i < entries.len()
    &&& entries[i].name == name
    &&& forall|j: int| 0 <= j < i ==> (#[trigger] entries[j]).name != name
}

/// The first of the entries with that name, if there is one.
pub open spec fn first_named(entries: Seq<EntryView>, name: Seq<char>) -> Option<EntryView> {
    if exists|i: int| first_named_at(entries, name, i) {
        Some(entries[choose|i: int| first_named_at(entries, name, i)])
    } else {
        None
    }
}

impl DirList {
    /// Finds the first entry with that name.
    pub fn find(&self, name: &str) -> (entry: Option<&DirEntry>)
        ensures
            match entry {
                Some(entry) => first_named(self@, name@) == Some(entry@),
                None => first_named(self@, name@) is None,
            },
    {
        let mut i: usize = 0;
        while i < self.entries.len()
            invariant
                i <= self.entries.len(),
                forall|j: int| 0 <= j < i ==> (#[trigger] self@[j]).name != name@,
            decreases self.entries.len() - i,
        {
            let entry: &DirEntry = &self.entries[i];
            proof {
                assert(self@[i as int] == entry@);
            }
            if crate::text::same(entry.name.as_str(), name) {
                proof {
                    assert(first_named_at(self@, name@, i as int));
                    let k = choose|k: int| first_named_at(self@, name@, k);
                    if k < i {
                        assert(self@[k].name != name@);
                    } else if i < k {
                        assert(self@[i as int].name != name@);
                    }
                }
                return Some(entry);
            }
            i = i + 1;
        }
        proof {
            assert forall|k: int| !first_named_at(self@, name@, k) by {
                if 0 <= k < self@.len() {
                    assert(self@[k].name != name@);
                }
            }
        }
        None
    }
}

} // verus!
