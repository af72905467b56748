use advanced_rsync::ftp::{
    connect_to_ftp, create_ftp_file, date_of_line, delete_ftp_file, entry_of_line,
    extract_ftp_file_data, put_file, read_ftp_file, recursive_delete, server_address, FtpFound,
    ParsedTime,
};
use advanced_rsync::location::LocTypes;
use advanced_rsync::modes::CreateType;
use advanced_rsync::time::Timestamp;

#[test]
fn listing_line_with_a_time_is_of_the_current_year() {
    let line = "-rw-r--r--   1 owner group      1234 Mar 09 14:05 my file.txt";
    let entry = extract_ftp_file_data(line, 2024).unwrap();
    assert_eq!(entry.name, "my file.txt");
    assert_eq!(entry.modified, Timestamp::new(1_709_993_100, 0));
    assert_eq!(entry.display_time, "2024-03-09 14:05:00");
}

#[test]
fn listing_line_with_a_year_is_dated_at_midnight() {
    let line = "drwxr-xr-x 2 owner group 4096 Jan 01 2020 docs";
    let entry = extract_ftp_file_data(line, 2024).unwrap();
    assert_eq!(entry.name, "docs");
    assert_eq!(entry.modified, Timestamp::new(1_577_836_800, 0));
    assert_eq!(entry.display_time, "2020-01-01 00:00:00");
}

#[test]
fn listing_lines_that_are_not_understood_stand_for_nothing() {
    assert!(extract_ftp_file_data("", 2024).is_none());
    assert!(extract_ftp_file_data("total 12", 2024).is_none());
    assert!(extract_ftp_file_data("-rw-r--r-- 1 o g 12 Mar 09 14:05", 2024).is_none());
    assert!(extract_ftp_file_data("-rw-r--r-- 1 o g 12 Foo 09 14:05 f", 2024).is_none());
    assert!(extract_ftp_file_data("-rw-r--r-- 1 o g 12 Feb 30 2023 f", 2024).is_none());
    assert!(extract_ftp_file_data("-rw-r--r-- 1 o g 12 Mar 09 year f", 2024).is_none());
    assert!(extract_ftp_file_data("-rw-r--r-- 1 o g 12 Mar 09 14:05 f", -1).is_none());
}

fn columns_of(line: &str) -> Vec<String> {
    line.split_whitespace().map(|s| s.to_string()).collect()
}

#[test]
fn date_of_a_line_is_put_together_for_the_pattern() {
    let timed = columns_of("-rw-r--r-- 1 o g 12 Mar 09 14:05 f");
    assert_eq!(date_of_line(&timed, 2024), Some("2024 Mar 09 14:05".to_string()));
    let dated = columns_of("-rw-r--r-- 1 o g 12 Dec 31 0199 f");
    assert_eq!(date_of_line(&dated, 2024), Some("199 Dec 31 00:00".to_string()));
    let short = columns_of("-rw-r--r-- 1 o g 12 Dec 31 1999");
    assert_eq!(date_of_line(&short, 2024), None);
}

#[test]
fn entry_of_a_line_takes_the_name_from_the_ninth_column_on() {
    let cols = columns_of("-rw-r--r-- 1 o g 12 Mar 09 14:05 a  b   c");
    let parsed =
        ParsedTime { seconds: 42, year: 2024, month: 3, day: 9, hour: 14, minute: 5, second: 0 };
    let entry = entry_of_line(&cols, Some(parsed)).unwrap();
    assert_eq!(entry.name, "a b c");
    assert_eq!(entry.modified, Timestamp::new(42, 0));
    assert_eq!(entry.display_time, "2024-03-09 14:05:00");
    assert!(entry_of_line(&cols, None).is_none());
    let before_christ = ParsedTime { year: -1, ..parsed };
    assert!(entry_of_line(&cols, Some(before_christ)).is_none());
    let short = columns_of("-rw-r--r-- 1 o g 12 Mar 09 14:05");
    assert!(entry_of_line(&short, Some(parsed)).is_none());
}

fn line(name: &str, dir: bool) -> FtpFound {
    let flags = if dir { "drwxr-xr-x" } else { "-rw-r--r--" };
    FtpFound { line: format!("{} 1 o g 12 Mar 09 2021 {}", flags, name), is_dir: dir }
}

#[test]
fn walk_lists_directory_by_directory() {
    let mut walk = connect_to_ftp("me", "secret", "example.org", "/srv");
    assert_eq!(walk.next_directory(), Some(&"/srv".to_string()));
    let top = vec![line("docs", true), line("a.txt", false), FtpFound {
        line: "garbage".to_string(),
        is_dir: false,
    }];
    walk.recursive_list(&top, 2024);
    assert_eq!(walk.next_directory(), Some(&"/srv/docs".to_string()));
    walk.recursive_list(&vec![line("b.txt", false), line("deep", true)], 2024);
    assert_eq!(walk.next_directory(), Some(&"/srv/docs/deep".to_string()));
    walk.recursive_list(&Vec::new(), 2024);
    assert_eq!(walk.next_directory(), None);
    walk.recursive_list(&vec![line("late", false)], 2024);
    let idx = walk.finish();
    assert_eq!(idx.len(), 4);
    let expect = |path: &str| {
        LocTypes::Ftp(
            "me".to_string(),
            "secret".to_string(),
            "example.org".to_string(),
            path.to_string(),
        )
    };
    assert_eq!(idx.get("docs").unwrap().location, expect("/srv/docs"));
    assert_eq!(idx.get("a.txt").unwrap().location, expect("/srv/a.txt"));
    assert_eq!(idx.get("docs/b.txt").unwrap().location, expect("/srv/docs/b.txt"));
    assert_eq!(idx.get("docs/deep").unwrap().location, expect("/srv/docs/deep"));
    assert_eq!(idx.get("a.txt").unwrap().modified_at, Timestamp::new(1_615_248_000, 0));
    assert!(idx.get("docs").unwrap().is_folder);
    assert!(idx.get("docs/deep").unwrap().is_folder);
    assert!(!idx.get("a.txt").unwrap().is_folder);
    assert!(!idx.get("docs").unwrap().carries_bytes());
    assert!(idx.get("docs/b.txt").unwrap().carries_bytes());
    assert!(idx.get("late").is_none());
}

#[test]
fn targets_are_cut_at_the_last_slash() {
    let t = read_ftp_file("me", "pw", "example.org", "srv/docs/a.txt");
    assert_eq!(t.address, "example.org:21");
    assert_eq!(t.user, "me");
    assert_eq!(t.password, "pw");
    assert_eq!(t.path, "srv/docs/a.txt");
    assert_eq!(t.directory, Some("srv/docs".to_string()));
    assert_eq!(t.name, "a.txt");
    let bare = delete_ftp_file("me", "pw", "example.org", "a.txt");
    assert_eq!(bare.directory, None);
    assert_eq!(bare.name, "a.txt");
    let rooted = delete_ftp_file("me", "pw", "example.org", "/a.txt");
    assert_eq!(rooted.directory, Some(String::new()));
    assert_eq!(rooted.name, "a.txt");
    assert_eq!(server_address("10.0.0.7"), "10.0.0.7:21");
}

#[test]
fn uploads_carry_the_bytes() {
    let up = put_file(&[7, 8, 9], "me", "pw", "example.org", "srv/a.bin");
    assert_eq!(up.content, vec![7, 8, 9]);
    assert_eq!(up.target.directory, Some("srv".to_string()));
    assert_eq!(up.target.name, "a.bin");
}

#[test]
fn creations_name_the_directories_above() {
    let c = create_ftp_file("me", "pw", "example.org", "srv//docs/new.txt", CreateType::File);
    assert_eq!(c.parents, vec!["srv".to_string(), "docs".to_string()]);
    assert_eq!(c.target.name, "new.txt");
    assert_eq!(c.kind, CreateType::File);
    let rooted = create_ftp_file("me", "pw", "example.org", "/srv/d", CreateType::Folder);
    assert_eq!(rooted.parents, vec!["/".to_string(), "srv".to_string()]);
    assert_eq!(rooted.target.path, "/srv/d");
    assert_eq!(rooted.kind, CreateType::Folder);
    let bare = create_ftp_file("me", "pw", "example.org", "new.txt", CreateType::File);
    assert!(bare.parents.is_empty());
    let top = create_ftp_file("me", "pw", "example.org", "/new.txt", CreateType::File);
    assert_eq!(top.parents, vec!["/".to_string()]);
}

#[test]
fn what_a_directory_holds_is_deleted_by_its_path() {
    let items = vec!["a".to_string(), "b c".to_string()];
    assert_eq!(
        recursive_delete("srv/docs", &items),
        vec!["srv/docs/a".to_string(), "srv/docs/b c".to_string()]
    );
    assert!(recursive_delete("srv", &Vec::new()).is_empty());
}
