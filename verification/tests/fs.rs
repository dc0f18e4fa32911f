use quicfs::error::ErrorCode;
use quicfs::fs::{
    file_stat, path_depth, refuse_listing, refuse_rename, EntryMetadata, FileSystem,
};

fn files(root: &str) -> FileSystem {
    FileSystem::new(root.to_string()).unwrap()
}

fn metadata(name: &str, is_dir: bool) -> EntryMetadata {
    EntryMetadata {
        name: name.to_string(),
        is_dir,
        len: 1234,
        mode: 0o100644,
        modified: Some(1708268645),
        accessed: Some(0),
        created: Some(86400),
    }
}

#[test]
fn files_stand_below_the_root() {
    let fs = files("served_files");
    let path = |path: &str| fs.file_path(path).unwrap();
    assert_eq!(fs.root_path(), "served_files");
    assert_eq!(path("/file/a/b.txt"), "served_files/a/b.txt");
    assert_eq!(path("/file//a"), "served_files/a");
    assert_eq!(path("a"), "served_files/a");
    assert_eq!(path("/file/"), "served_files/");
    assert_eq!(files("/srv/").file_path("/file/a").unwrap(), "/srv/a");
    assert_eq!(files("").file_path("/file/a").unwrap(), "a");
}

#[test]
fn route_is_taken_off_once() {
    let fs = files("/srv");
    assert_eq!(fs.file_path("/file/file1.txt").unwrap(), "/srv/file1.txt");
    assert_eq!(fs.file_path("/file/file/x").unwrap(), "/srv/file/x");
    assert_eq!(fs.file_path("/file//file/x").unwrap(), "/srv/file/x");
    assert_eq!(fs.dir_path("/dir/dir2").unwrap(), "/srv/dir2");
    assert_eq!(fs.dir_path("/dir/directory").unwrap(), "/srv/directory");
    assert_eq!(fs.attr_path("/attr/attribute").unwrap(), "/srv/attribute");
    assert_eq!(fs.file_path("/filed").unwrap(), "/srv/filed");
}

#[test]
fn directories_stand_below_the_root() {
    let fs = files("/srv");
    assert_eq!(fs.dir_path("/dir/").unwrap(), "/srv");
    assert_eq!(fs.dir_path("/dir").unwrap(), "/srv");
    assert_eq!(fs.dir_path("/dir/a/b").unwrap(), "/srv/a/b");
    assert_eq!(fs.attr_path("/attr/").unwrap(), "/srv");
}

#[test]
fn no_path_leaves_the_root() {
    let fs = files("/srv");
    for below in ["..", "../secret", "a/../../b", "./..", "a/b/../../..", "/../x"] {
        for result in [
            fs.file_path(&format!("/file/{below}")),
            fs.dir_path(&format!("/dir/{below}")),
            fs.attr_path(&format!("/attr/{below}")),
            fs.file_entry_path(&format!("/file/{below}")),
            fs.dir_entry_path(&format!("/dir/{below}")),
        ] {
            assert_eq!(result.unwrap_err().code, ErrorCode::Eacces, "{below}");
        }
    }
    let error = fs.file_path("/file/../secret").unwrap_err();
    assert_eq!(error.message, "Permission denied: /file/../secret");
    let error = fs.list_directory("/dir/..", true, true, vec![]).unwrap_err();
    assert_eq!(error.code, ErrorCode::Eacces);
}

#[test]
fn steps_up_within_the_root_are_allowed() {
    let fs = files("/srv");
    assert_eq!(fs.file_path("/file/a/../b").unwrap(), "/srv/a/../b");
    assert_eq!(fs.file_path("/file/..a").unwrap(), "/srv/..a");
    assert_eq!(fs.file_path("/file/...").unwrap(), "/srv/...");
    assert_eq!(path_depth("a/../b"), Some(1));
    assert_eq!(path_depth("a//./b/"), Some(2));
    assert_eq!(path_depth(""), Some(0));
    assert_eq!(path_depth("a/.."), Some(0));
    assert_eq!(path_depth(".."), None);
}

#[test]
fn root_itself_is_not_removed() {
    let fs = files("/srv");
    assert_eq!(fs.dir_entry_path("/dir/").unwrap_err().code, ErrorCode::Eacces);
    assert_eq!(fs.dir_entry_path("/dir/a/..").unwrap_err().code, ErrorCode::Eacces);
    assert_eq!(fs.file_entry_path("/file/.").unwrap_err().code, ErrorCode::Eacces);
    assert_eq!(fs.dir_entry_path("/dir/a").unwrap(), "/srv/a");
    assert_eq!(fs.file_entry_path("/file/a").unwrap(), "/srv/a");
}

#[test]
fn joining_agrees_with_the_standard_library() {
    for root in ["/srv", "/srv/", "served", ".", "/"] {
        for below in ["a", "a/b", "a/..", "a b"] {
            let expected = std::path::Path::new(root).join(below);
            let path = files(root).file_path(&format!("/file/{below}")).unwrap();
            assert_eq!(path, expected.to_str().unwrap());
        }
    }
}

#[test]
fn renaming_needs_a_source_and_a_free_name() {
    assert!(refuse_rename(true, false).is_none());
    assert_eq!(refuse_rename(true, true).unwrap().code, ErrorCode::Eexist);
    let error = refuse_rename(false, true).unwrap();
    assert_eq!((error.code, error.message.as_str()), (ErrorCode::Enoent, "Source not found"));
    assert_eq!(refuse_rename(false, false).unwrap().code, ErrorCode::Enoent);
}

#[test]
fn attributes_of_one_file_are_told() {
    let stat = file_stat(&metadata("a", false)).unwrap();
    assert_eq!((stat.name.as_str(), stat.type_.as_str(), stat.size, stat.mode), ("a", "file", 1234, 0o644));
    assert_eq!(stat.mtime, "2024-02-18T15:04:05Z");
    let mut old = metadata("old", false);
    old.modified = None;
    assert_eq!(file_stat(&old).unwrap_err().code, ErrorCode::Eio);
}

#[test]
fn listing_tells_of_entries() {
    let list = files("/srv")
        .list_directory("/dir/", true, true, vec![metadata("a.txt", false), metadata("sub", true)])
        .unwrap();
    assert_eq!(list.entries.len(), 2);
    let entry = &list.entries[0];
    assert_eq!(entry.name, "a.txt");
    assert_eq!(entry.type_, "file");
    assert_eq!(entry.size, 1234);
    assert_eq!(entry.mode, 0o644);
    assert_eq!(entry.mtime, "2024-02-18T15:04:05Z");
    assert_eq!(entry.atime, "1970-01-01T00:00:00Z");
    assert_eq!(entry.ctime, "1970-01-02T00:00:00Z");
    assert_eq!(list.entries[1].name, "sub");
    assert_eq!(list.entries[1].type_, "dir");
}

#[test]
fn listing_of_nothing_is_refused() {
    let error = files("/srv").list_directory("/dir/it's", false, false, vec![]).unwrap_err();
    assert_eq!(error.code, ErrorCode::Enoent);
    let shown = format!("{:?}", std::path::Path::new("/srv/it's"));
    assert_eq!(error.message, format!("Directory does not exist: {shown}"));
    let error = files("/srv").list_directory("/dir/a", true, false, vec![]).unwrap_err();
    assert_eq!(error.code, ErrorCode::Enoent);
    assert_eq!(error.message, "Path is not a directory: \"/srv/a\"");
}

#[test]
fn listing_needs_times_after_1970() {
    let mut old = metadata("old", false);
    old.created = None;
    let error = files("/srv")
        .list_directory("/dir/", true, true, vec![metadata("a", false), old])
        .unwrap_err();
    assert_eq!(error.code, ErrorCode::Eio);
    assert_eq!(error.message, "second time provided was later than self");
}

#[test]
fn refusal_shows_the_path() {
    let error = refuse_listing("<p>", false, true).unwrap();
    assert_eq!((error.code, error.message.as_str()), (ErrorCode::Enoent, "Directory does not exist: <p>"));
    let error = refuse_listing("<p>", true, false).unwrap();
    assert_eq!((error.code, error.message.as_str()), (ErrorCode::Enoent, "Path is not a directory: <p>"));
    assert!(refuse_listing("<p>", true, true).is_none());
}
