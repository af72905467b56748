use advanced_rsync::archive::{list_files_in_zip, read_zip_member, CivilTime, ZipMember};
use advanced_rsync::location::LocTypes;
use advanced_rsync::time::Timestamp;
use std::io::{Cursor, Write};
use zip::write::SimpleFileOptions;
use zip::{CompressionMethod, DateTime, ZipWriter};

fn packed() -> Vec<u8> {
    let mut writer = ZipWriter::new(Cursor::new(Vec::new()));
    let stamp = DateTime::from_date_and_time(2024, 3, 9, 14, 5, 58).unwrap();
    let options = SimpleFileOptions::default()
        .compression_method(CompressionMethod::Stored)
        .last_modified_time(stamp);
    writer.add_directory("docs/", options).unwrap();
    writer.start_file("docs/readme.txt", options).unwrap();
    writer.write_all(b"read me").unwrap();
    writer.start_file("top.bin", options).unwrap();
    writer.write_all(&[1, 2, 3, 4]).unwrap();
    writer.start_file(".DS_Store", options).unwrap();
    writer.write_all(b"junk").unwrap();
    writer.finish().unwrap().into_inner()
}

#[test]
fn zip_listing_keys_members_by_their_names() {
    let idx = list_files_in_zip("/data/a.zip", packed()).unwrap();
    assert_eq!(idx.len(), 2);
    assert!(idx.contains_key("docs/readme.txt"));
    assert!(idx.contains_key("top.bin"));
    assert!(!idx.contains_key("docs"));
    assert!(!idx.contains_key("docs/"));
    assert!(!idx.contains_key(".DS_Store"));
    let entry = idx.get("docs/readme.txt").unwrap();
    assert_eq!(entry.location, LocTypes::Zip("/data/a.zip/docs/readme.txt".to_string()));
    assert_eq!(entry.display_time, "2024-03-09 14:05:58");
    assert_eq!(entry.modified_at, Timestamp::new(1_709_993_158, 0));
}

#[test]
fn zip_listing_of_what_is_no_archive_fails() {
    let r = list_files_in_zip("/data/a.zip", b"certainly not an archive".to_vec());
    match r {
        Err(e) => assert_eq!(e.message(), "Invalid file for listing: /data/a.zip"),
        Ok(_) => panic!("bytes that are no archive were listed"),
    }
}

#[test]
fn zip_members_are_read_by_name() {
    assert_eq!(read_zip_member(packed(), "docs/readme.txt"), Some(b"read me".to_vec()));
    assert_eq!(read_zip_member(packed(), "top.bin"), Some(vec![1, 2, 3, 4]));
    assert_eq!(read_zip_member(packed(), "missing"), None);
    assert_eq!(read_zip_member(vec![0, 1, 2], "top.bin"), None);
}

#[test]
fn civil_time_is_shown_with_leading_zeros() {
    let t = CivilTime { year: 1980, month: 1, day: 1, hour: 0, minute: 0, second: 0 };
    assert_eq!(t.to_text(), "1980-01-01 00:00:00");
    assert_eq!(t.to_unix(), Some(315_532_800));
    let late = CivilTime { year: 2107, month: 12, day: 31, hour: 23, minute: 59, second: 58 };
    assert_eq!(late.to_text(), "2107-12-31 23:59:58");
    let short = CivilTime { year: 7, month: 10, day: 9, hour: 8, minute: 7, second: 6 };
    assert_eq!(short.to_text(), "0007-10-09 08:07:06");
}

#[test]
fn civil_time_that_the_calendar_lacks_has_no_seconds() {
    let t = CivilTime { year: 2023, month: 2, day: 30, hour: 0, minute: 0, second: 0 };
    assert_eq!(t.to_unix(), None);
    let u = CivilTime { year: 2023, month: 2, day: 28, hour: 24, minute: 0, second: 0 };
    assert_eq!(u.to_unix(), None);
    let leap = CivilTime { year: 2024, month: 2, day: 29, hour: 12, minute: 0, second: 0 };
    assert_eq!(leap.to_unix(), Some(1_709_208_000));
}

#[test]
fn member_without_a_known_time_is_dated_at_the_epoch() {
    let member = ZipMember { name: "a/b.txt".to_string(), is_dir: false, modified: None };
    let entry = member.to_entry("/x.zip", None);
    assert_eq!(entry.location, LocTypes::Zip("/x.zip/a/b.txt".to_string()));
    assert_eq!(entry.modified_at, Timestamp::epoch());
    assert_eq!(entry.display_time, "Unknown");
    let t = CivilTime { year: 2023, month: 2, day: 30, hour: 0, minute: 0, second: 0 };
    let odd = ZipMember { name: "c".to_string(), is_dir: false, modified: Some(t) };
    let entry = odd.to_entry("/x.zip", None);
    assert_eq!(entry.display_time, "Unknown");
    let good = odd.to_entry("/x.zip", Some(77));
    assert_eq!(good.modified_at, Timestamp::new(77, 0));
    assert_eq!(good.display_time, "2023-02-30 00:00:00");
}
