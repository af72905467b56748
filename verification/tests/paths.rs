use advanced_rsync::listing::{list_files_recursive, WalkEntry};
use advanced_rsync::location::LocTypes;
use advanced_rsync::paths::{file_as_bytes, relative_path, ReadPlan};
use advanced_rsync::time::Timestamp;

#[test]
fn relative_path_strips_the_root() {
    assert_eq!(relative_path("/a", "/a/b/c.txt"), Some("b/c.txt".to_string()));
    assert_eq!(relative_path("/a", "/a"), Some(".".to_string()));
    assert_eq!(relative_path("/a", "/a/"), Some(".".to_string()));
    assert_eq!(relative_path("/a/", "/a/b"), Some("b".to_string()));
    assert_eq!(relative_path("/a", "/a//b"), Some("b".to_string()));
    assert_eq!(relative_path("", "x/y"), None);
    assert_eq!(relative_path("", "/x/y"), Some("x/y".to_string()));
}

#[test]
fn relative_path_goes_by_whole_names() {
    assert_eq!(relative_path("/a", "/ab/c"), None);
    assert_eq!(relative_path("/a/b", "/a"), None);
    assert_eq!(relative_path("/a", "/b/a/c"), None);
}

#[test]
fn paths_into_archives_are_told_from_plain_files() {
    match file_as_bytes("/data/a.zip/docs/readme.txt") {
        ReadPlan::Member { archive, inner } => {
            assert_eq!(archive, "/data/a.zip");
            assert_eq!(inner, "docs/readme.txt");
        }
        ReadPlan::Plain(_) => panic!("a path into an archive was taken for a file"),
    }
    match file_as_bytes("/data/a.zip//x") {
        ReadPlan::Member { archive, inner } => {
            assert_eq!(archive, "/data/a.zip");
            assert_eq!(inner, "x");
        }
        ReadPlan::Plain(_) => panic!("a path into an archive was taken for a file"),
    }
    match file_as_bytes("/data/a.zip") {
        ReadPlan::Member { archive, inner } => {
            assert_eq!(archive, "/data/a.zip");
            assert_eq!(inner, "");
        }
        ReadPlan::Plain(_) => panic!("an archive was taken for a file"),
    }
    match file_as_bytes("/data/notes.txt") {
        ReadPlan::Plain(path) => assert_eq!(path, "/data/notes.txt"),
        ReadPlan::Member { .. } => panic!("a file was taken for an archive"),
    }
    match file_as_bytes("/a.zip/b.zip/c") {
        ReadPlan::Member { archive, inner } => {
            assert_eq!(archive, "/a.zip");
            assert_eq!(inner, "b.zip/c");
        }
        ReadPlan::Plain(_) => panic!("a path into an archive was taken for a file"),
    }
}

fn found(path: &str, is_dir: bool, secs: i64) -> WalkEntry {
    WalkEntry::new(path.to_string(), is_dir, Timestamp::new(secs, 0), format!("t{}", secs))
}

#[test]
fn walk_listing_keys_by_relative_path() {
    let entries = vec![
        found("/root/dir", true, 1),
        found("/root/dir/sub", true, 2),
        found("/root/dir/sub/f.txt", false, 3),
        found("/root/dir/.DS_Store", false, 4),
        found("/elsewhere/g", false, 5),
    ];
    let idx = list_files_recursive("/root/dir", &entries);
    assert_eq!(idx.len(), 3);
    assert_eq!(idx.get(".").unwrap().location, LocTypes::Folder("/root/dir".to_string()));
    assert_eq!(idx.get("sub").unwrap().location, LocTypes::Folder("/root/dir/sub".to_string()));
    let f = idx.get("sub/f.txt").unwrap();
    assert_eq!(f.location, LocTypes::SimpleFile("/root/dir/sub/f.txt".to_string()));
    assert_eq!(f.modified_at, Timestamp::new(3, 0));
    assert_eq!(f.display_time, "t3");
    assert!(idx.get(".DS_Store").is_none());
    assert_eq!(idx.path_at(0), ".");
    assert_eq!(idx.path_at(2), "sub/f.txt");
}

#[test]
fn walk_listing_keeps_the_last_find_of_a_path() {
    let entries = vec![found("/r/f", false, 1), found("/r/g", false, 2), found("/r/f", true, 9)];
    let idx = list_files_recursive("/r", &entries);
    assert_eq!(idx.len(), 2);
    assert_eq!(idx.path_at(0), "f");
    assert_eq!(idx.get("f").unwrap().location, LocTypes::Folder("/r/f".to_string()));
    assert_eq!(idx.get("f").unwrap().modified_at, Timestamp::new(9, 0));
}
