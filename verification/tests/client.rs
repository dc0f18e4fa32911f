use quicfs::calendar::Timestamp;
use quicfs::client::{
    block_count, file_type, lookup_refusal, parent_or_root, read_reply, readdir_refusal, write_reply, AttrChanges,
    CreateStep, Errno, FileAttr, FileType, GetattrStep, QuicFS, TimeOrNow, ROOT_INODE,
};
use quicfs::fs::{EntryMetadata, FileSystem};
use quicfs::types::{DirEntry, DirList};

const NOW: Timestamp = Timestamp { secs: 1000, nanos: 5 };
const LATER: Timestamp = Timestamp { secs: 2000, nanos: 6 };

const NO_CHANGE: AttrChanges = AttrChanges {
    mode: None,
    uid: None,
    gid: None,
    size: None,
    atime: None,
    mtime: None,
    flags: None,
};

fn mounted() -> QuicFS {
    QuicFS::new("https://localhost:4433".to_string(), NOW)
}

fn entry(name: &str, type_: &str, size: u64) -> DirEntry {
    DirEntry {
        name: name.to_string(),
        type_: type_.to_string(),
        size,
        mode: 0o640,
        mtime: String::new(),
        atime: String::new(),
        ctime: String::new(),
    }
}

fn listing() -> DirList {
    DirList {
        entries: vec![
            entry("a", "file", 1000),
            entry("pipe", "fifo", 0),
            entry("sub", "dir", 4096),
            entry("a", "dir", 7),
        ],
    }
}

fn created(fs: &mut QuicFS, name: &str) -> FileAttr {
    match fs.create(name, 0o100600, 2, Some(&DirList { entries: vec![] }), NOW) {
        CreateStep::WriteEmpty(attr) => attr,
        step => panic!("{step:?}"),
    }
}

#[test]
fn root_is_known_from_the_start() {
    let fs = mounted();
    assert_eq!(fs.server_url(), "https://localhost:4433");
    assert!(fs.has_room());
    match fs.getattr(ROOT_INODE) {
        GetattrStep::Reply(Ok(attr)) => {
            assert_eq!(attr.ino, 1);
            assert_eq!(attr.kind, FileType::Directory);
            assert_eq!((attr.perm, attr.nlink, attr.uid, attr.gid), (0o755, 2, 1000, 1000));
            assert_eq!((attr.size, attr.blocks, attr.blksize), (0, 0, 512));
            assert_eq!(attr.mtime, NOW);
        }
        step => panic!("{step:?}"),
    }
}

#[test]
fn lookup_is_refused_outside_of_the_root_and_for_hidden_files() {
    assert_eq!(lookup_refusal(ROOT_INODE, "a"), None);
    assert_eq!(lookup_refusal(2, "a"), Some(Errno::Enoent));
    assert_eq!(lookup_refusal(ROOT_INODE, ".git"), Some(Errno::Enoent));
    assert_eq!(readdir_refusal(ROOT_INODE), None);
    assert_eq!(readdir_refusal(2), Some(Errno::Enoent));
}

#[test]
fn lookup_makes_an_inode_once() {
    let mut fs = mounted();
    let attr = fs.lookup("a", Some(&listing()), NOW).unwrap();
    assert_eq!((attr.ino, attr.size, attr.blocks), (2, 1000, 2));
    assert_eq!((attr.kind, attr.perm, attr.nlink), (FileType::RegularFile, 0o640, 1));
    let sub = fs.lookup("sub", Some(&listing()), NOW).unwrap();
    assert_eq!((sub.ino, sub.kind), (3, FileType::Directory));
    let grown = DirList { entries: vec![entry("a", "file", 513)] };
    let again = fs.lookup("a", Some(&grown), LATER).unwrap();
    assert_eq!((again.ino, again.size, again.blocks), (2, 513, 2));
    assert_eq!(again.mtime, NOW);
    assert_eq!(fs.find_inode(&"/a".to_string()), Some(2));
    assert_eq!(fs.find_inode(&"/b".to_string()), None);
}

#[test]
fn lookup_of_what_is_not_there_fails() {
    let mut fs = mounted();
    assert_eq!(fs.lookup("b", Some(&listing()), NOW), Err(Errno::Enoent));
    assert_eq!(fs.lookup("pipe", Some(&listing()), NOW), Err(Errno::Enoent));
    assert_eq!(fs.lookup("a", None, NOW), Err(Errno::Eio));
    assert_eq!(fs.lookup("a", Some(&listing()), NOW).unwrap().ino, 2);
}

#[test]
fn found_inode_decides_the_lookup() {
    let mut fs = mounted();
    let list = listing();
    let found = fs.lookup_found(list.find("a"), Some(ROOT_INODE), NOW).unwrap();
    assert_eq!((found.ino, found.size), (ROOT_INODE, 1000));
    let fresh = fs.lookup_found(list.find("a"), Some(77), NOW).unwrap();
    assert_eq!(fresh.ino, 2);
    assert_eq!(fs.lookup_found(None, Some(2), NOW), Err(Errno::Enoent));
}

#[test]
fn file_is_created() {
    let mut fs = mounted();
    let attr = created(&mut fs, "new");
    assert_eq!((attr.ino, attr.size, attr.kind), (2, 0, FileType::RegularFile));
    assert_eq!((attr.perm, attr.flags, attr.nlink), (0o100600, 2, 1));
    assert_eq!(fs.create_finish(attr, true), Ok(attr));
    let list = DirList { entries: vec![entry("new", "file", 0)] };
    assert_eq!(fs.create("new", 0, 0, Some(&list), LATER), CreateStep::Created(attr));
    assert_eq!(fs.create("new", 0, 0, None, LATER), CreateStep::Failed(Errno::Eio));
}

#[test]
fn found_inode_decides_the_creation() {
    let mut fs = mounted();
    assert!(matches!(
        fs.create_found(true, Some(ROOT_INODE), "x", 0, 0, NOW),
        CreateStep::Created(FileAttr { ino: ROOT_INODE, .. })
    ));
    assert!(matches!(
        fs.create_found(false, Some(ROOT_INODE), "x", 0, -1, NOW),
        CreateStep::WriteEmpty(FileAttr { ino: 2, flags: u32::MAX, .. })
    ));
    assert!(matches!(
        fs.create_found(true, Some(9), "x", 0, 0, NOW),
        CreateStep::WriteEmpty(FileAttr { ino: 3, .. })
    ));
}

#[test]
fn failed_creation_leaves_no_inode() {
    let mut fs = mounted();
    let attr = created(&mut fs, "new");
    assert_eq!(fs.create_finish(attr, false), Err(Errno::Eio));
    assert_eq!(fs.refuse_file(attr.ino), Some(Errno::Enoent));
    assert_eq!(fs.read(attr.ino, 0, 1).unwrap_err(), Errno::Enoent);
    let list = DirList { entries: vec![entry("new", "file", 3)] };
    assert_eq!(fs.lookup("new", Some(&list), NOW).unwrap().ino, 3);
}

#[test]
fn attributes_are_asked_of_the_server() {
    let mut fs = mounted();
    let attr = fs.lookup("a", Some(&listing()), NOW).unwrap();
    match fs.getattr(attr.ino) {
        GetattrStep::List(dir) => assert_eq!(dir, "/"),
        step => panic!("{step:?}"),
    }
    let grown = DirList { entries: vec![entry("b", "file", 1), entry("a", "file", 5000)] };
    let reply = fs.getattr_finish(attr.ino, Some(&grown)).unwrap();
    assert_eq!((reply.ino, reply.size, reply.blocks), (2, 5000, 10));
    let gone = DirList { entries: vec![] };
    assert_eq!(fs.getattr_finish(attr.ino, Some(&gone)).unwrap().size, 5000);
    assert_eq!(fs.getattr_finish(attr.ino, None).unwrap().size, 5000);
    assert_eq!(fs.getattr_finish(99, None), Err(Errno::Enoent));
    assert_eq!(fs.getattr_entry(2, Some(&entry("a", "file", 8))).unwrap().size, 8);
    assert_eq!(fs.getattr_entry(99, Some(&entry("a", "file", 8))), Err(Errno::Enoent));
    assert!(matches!(fs.getattr(99), GetattrStep::Reply(Err(Errno::Enoent))));
}

#[test]
fn attributes_of_odd_names_come_from_memory() {
    let mut fs = mounted();
    let attr = created(&mut fs, "..");
    let list = DirList { entries: vec![entry("..", "file", 9)] };
    assert_eq!(fs.getattr_finish(attr.ino, Some(&list)).unwrap().size, 0);
}

#[test]
fn file_is_read_and_written() {
    let mut fs = mounted();
    let attr = fs.lookup("a", Some(&listing()), NOW).unwrap();
    let request = fs.read(attr.ino, 100, 50).unwrap();
    assert_eq!((request.method.as_str(), request.path.as_str()), ("GET", "/file/a"));
    assert_eq!(request.headers[0], ("host".to_string(), "localhost:4433".to_string()));
    assert_eq!(request.headers[1], ("Range".to_string(), "bytes=100-149".to_string()));
    let request = fs.write(attr.ino, 100, 50).unwrap();
    assert_eq!((request.method.as_str(), request.path.as_str()), ("PATCH", "/file/a"));
    assert_eq!(request.headers[1], ("Content-Range".to_string(), "bytes 100-149/150".to_string()));
}

#[test]
fn only_known_files_are_read_and_written() {
    let mut fs = mounted();
    let sub = fs.lookup("sub", Some(&listing()), NOW).unwrap();
    assert_eq!(fs.read(99, 0, 1).unwrap_err(), Errno::Enoent);
    assert_eq!(fs.read(sub.ino, 0, 1).unwrap_err(), Errno::Eisdir);
    assert_eq!(fs.read(ROOT_INODE, 0, 1).unwrap_err(), Errno::Eisdir);
    assert_eq!(fs.write(99, 0, 1).unwrap_err(), Errno::Enoent);
    assert_eq!(fs.write(sub.ino, 0, 1).unwrap_err(), Errno::Eisdir);
    assert_eq!(fs.refuse_file(sub.ino), Some(Errno::Eisdir));
}

#[test]
fn nothing_is_asked_of_a_server_without_address() {
    let mut fs = QuicFS::new(String::new(), NOW);
    let attr = fs.lookup("a", Some(&listing()), NOW).unwrap();
    assert_eq!(fs.read(attr.ino, 0, 1).unwrap_err(), Errno::Eio);
    assert_eq!(fs.write(attr.ino, 0, 1).unwrap_err(), Errno::Eio);
    assert_eq!(fs.setattr(attr.ino, Some(1)).unwrap_err(), Errno::Eio);
}

#[test]
fn answers_of_the_server_are_passed_on() {
    assert_eq!(read_reply(206, b"abc".to_vec()), Ok(b"abc".to_vec()));
    assert_eq!(read_reply(404, b"abc".to_vec()), Err(Errno::Eio));
    assert_eq!(write_reply(200, b"", 3), Ok(3));
    assert_eq!(write_reply(400, b"", 3), Err(Errno::Eio));
}

#[test]
fn root_is_listed() {
    let fs = mounted();
    let items = fs.readdir(Some(&listing()), 0).unwrap();
    let seen: Vec<_> =
        items.iter().map(|i| (i.ino, i.next, i.kind, i.name.as_str())).collect();
    assert_eq!(
        seen,
        [
            (1, 1, FileType::Directory, "."),
            (1, 2, FileType::Directory, ".."),
            (2, 3, FileType::RegularFile, "a"),
            (2, 4, FileType::Directory, "sub"),
            (2, 5, FileType::Directory, "a"),
        ]
    );
    assert_eq!(fs.readdir(None, 0).unwrap_err(), Errno::Eio);
}

#[test]
fn listing_goes_on_where_it_stopped() {
    let fs = mounted();
    let all = fs.readdir(Some(&listing()), 0).unwrap();
    for (i, item) in all.iter().enumerate() {
        let rest = fs.readdir(Some(&listing()), item.next).unwrap();
        assert_eq!(rest.len(), all.len() - i - 1);
        assert_eq!(rest.first().map(|i| i.next), all.get(i + 1).map(|i| i.next));
    }
    assert!(fs.readdir(Some(&listing()), 100).unwrap().is_empty());
    assert!(fs.readdir(Some(&listing()), -1).unwrap().is_empty());
}

#[test]
fn attributes_are_changed() {
    let mut fs = mounted();
    let attr = fs.lookup("a", Some(&listing()), NOW).unwrap();
    let request = fs.setattr(attr.ino, Some(3)).unwrap().unwrap();
    assert_eq!((request.method.as_str(), request.path.as_str()), ("PATCH", "/file/a"));
    assert_eq!(request.headers[1], ("Content-Length".to_string(), "0".to_string()));
    assert_eq!(request.headers[2], ("Content-Range".to_string(), "bytes */3".to_string()));
    let changes = AttrChanges {
        mode: Some(0o100777),
        uid: Some(1),
        gid: Some(2),
        size: Some(3),
        atime: Some(TimeOrNow::Now),
        mtime: Some(TimeOrNow::SpecificTime(Timestamp { secs: -1, nanos: 0 })),
        flags: Some(4),
    };
    let reply = fs.setattr_finish(attr.ino, changes, true, LATER).unwrap();
    assert_eq!((reply.perm, reply.uid, reply.gid, reply.size), (0o100777, 1, 2, 3));
    assert_eq!((reply.atime, reply.mtime.secs, reply.flags), (LATER, -1, 4));
    assert_eq!((reply.blocks, reply.ctime, reply.kind), (2, NOW, FileType::RegularFile));
    assert_eq!(fs.getattr_finish(attr.ino, None), Ok(reply));
}

#[test]
fn attributes_stay_where_the_server_does_not_truncate() {
    let mut fs = mounted();
    let attr = fs.lookup("a", Some(&listing()), NOW).unwrap();
    let changes = AttrChanges { size: Some(3), uid: Some(9), ..NO_CHANGE };
    assert_eq!(fs.setattr_finish(attr.ino, changes, false, LATER), Err(Errno::Eio));
    assert_eq!(fs.getattr_finish(attr.ino, None), Ok(attr));
    assert_eq!(fs.setattr_finish(attr.ino, NO_CHANGE, false, LATER), Ok(attr));
    assert_eq!(fs.setattr_finish(99, NO_CHANGE, false, LATER), Err(Errno::Enoent));
}

#[test]
fn change_of_size_needs_a_path() {
    let fs = mounted();
    assert_eq!(fs.setattr(99, None).unwrap_err(), Errno::Enoent);
    assert!(fs.setattr(ROOT_INODE, None).unwrap().is_none());
    assert_eq!(fs.setattr(ROOT_INODE, Some(1)).unwrap_err(), Errno::Eio);
}

#[test]
fn blocks_and_types_are_told() {
    assert_eq!(block_count(0), 0);
    assert_eq!(block_count(1), 1);
    assert_eq!(block_count(512), 1);
    assert_eq!(block_count(513), 2);
    assert_eq!(block_count(u64::MAX), 1 << 55);
    assert_eq!(file_type("file"), Some(FileType::RegularFile));
    assert_eq!(file_type("dir"), Some(FileType::Directory));
    assert_eq!(file_type("link"), None);
}

#[test]
fn file_without_parent_stands_in_the_root() {
    assert_eq!(parent_or_root(None), "/");
    assert_eq!(parent_or_root(Some("/a".to_string())), "/a");
}

#[test]
fn file_below_a_directory_is_listed_there() {
    let mut fs = mounted();
    let attr = created(&mut fs, "a/b");
    match fs.getattr(attr.ino) {
        GetattrStep::List(dir) => assert_eq!(dir, "/a"),
        step => panic!("{step:?}"),
    }
    let list = DirList { entries: vec![entry("b", "file", 9)] };
    assert_eq!(fs.getattr_finish(attr.ino, Some(&list)).unwrap().size, 9);
}

#[test]
fn client_understands_what_the_server_lists() {
    let metadata = |name: &str, is_dir: bool| EntryMetadata {
        name: name.to_string(),
        is_dir,
        len: 77,
        mode: 0o100751,
        modified: Some(1),
        accessed: Some(2),
        created: Some(3),
    };
    let files = FileSystem::new("/srv".to_string()).unwrap();
    let entries = vec![metadata("d", true), metadata("f", false)];
    let list = files.list_directory("/dir/", true, true, entries).unwrap();
    let mut fs = mounted();
    let d = fs.lookup("d", Some(&list), NOW).unwrap();
    assert_eq!((d.kind, d.size, d.perm), (FileType::Directory, 77, 0o751));
    let f = fs.lookup("f", Some(&list), NOW).unwrap();
    assert_eq!((f.kind, f.size, f.perm), (FileType::RegularFile, 77, 0o751));
    assert_eq!(fs.readdir(Some(&list), 2).unwrap().len(), 2);
}

#[test]
fn path_under_several_inodes_leads_to_one_of_them() {
    let mut fs = mounted();
    let first = created(&mut fs, "a");
    let second = created(&mut fs, "a");
    assert_ne!(first.ino, second.ino);
    let found = fs.find_inode(&"/a".to_string()).unwrap();
    assert!(found == first.ino || found == second.ino);
}

#[test]
fn lookups_in_turn_keep_their_inodes() {
    let mut fs = mounted();
    let list = DirList { entries: vec![entry("a", "file", 1), entry("b", "dir", 2)] };
    let a = fs.lookup("a", Some(&list), NOW).unwrap().ino;
    let b = fs.lookup("b", Some(&list), NOW).unwrap().ino;
    let again = fs.lookup("a", Some(&list), LATER).unwrap().ino;
    assert_eq!(a, again);
    assert!(a != b && a != ROOT_INODE && b != ROOT_INODE);
    let new = DirList { entries: vec![entry("c", "file", 1)] };
    assert_eq!(fs.lookup("c", Some(&new), NOW).unwrap().ino, b + 1);
}
