use advanced_rsync::backend::{BackendCall, BackendReply};
use advanced_rsync::decimal::{decimal_text, parse_number, stamp_text, zero_pad};
use advanced_rsync::errors::FileErrors;
use advanced_rsync::index::{FileEntry, FileIndex};
use advanced_rsync::item::{begin_item, continue_item, Stage};
use advanced_rsync::location::LocTypes;
use advanced_rsync::modes::{CreateType, SyncMode};
use advanced_rsync::paths::strip_leading_slashes;
use advanced_rsync::resolve::{
    duplicate_newer_file, duplicate_newer_file_from_zip, resolve_entry, resolve_only_in_a,
    resolve_present_in_both, Resolution,
};
use advanced_rsync::sweep::{Phase, Sweep, SweepTurn};
use advanced_rsync::text::{
    breaks, chars_of, contains_char, contains_str, find_seq, join_spaced, rsplit_once_char,
    split_columns, split_once_char, split_pieces, str_equal, Breaks,
};
use advanced_rsync::time::Timestamp;

fn entry(loc: LocTypes, secs: i64) -> FileEntry {
    FileEntry::new(loc, Timestamp::new(secs, 0), format!("at {}", secs))
}

fn file(path: &str) -> LocTypes {
    LocTypes::SimpleFile(path.to_string())
}

fn zipped(path: &str) -> LocTypes {
    LocTypes::Zip(path.to_string())
}

fn dir(path: &str) -> LocTypes {
    LocTypes::Folder(path.to_string())
}

fn remote(path: &str) -> LocTypes {
    LocTypes::Ftp("u".to_string(), "p".to_string(), "h".to_string(), path.to_string())
}

#[test]
fn text_is_searched_by_characters() {
    assert_eq!(chars_of("añb"), vec!['a', 'ñ', 'b']);
    assert!(contains_char("a.b", '.'));
    assert!(!contains_char("ab", '.'));
    assert!(contains_str("x.DS_Store", ".DS"));
    assert!(contains_str("abc", ""));
    assert!(!contains_str("ab", "abc"));
    assert!(!contains_str("", "a"));
    let hay: Vec<char> = "ñ.zip.zip".chars().collect();
    let needle: Vec<char> = ".zip".chars().collect();
    assert_eq!(find_seq(&hay, &needle), Some(1));
    assert_eq!(find_seq(&needle, &hay), None);
    assert_eq!(find_seq(&hay, &Vec::new()), Some(0));
    assert!(str_equal("same", "same"));
    assert!(!str_equal("same", "sane"));
    assert!(!str_equal("same", "sam"));
    assert!(str_equal("", ""));
}

#[test]
fn text_is_cut_at_the_first_or_last_mark() {
    assert_eq!(split_once_char("a:b:c", ':'), Some(("a".to_string(), "b:c".to_string())));
    assert_eq!(rsplit_once_char("a:b:c", ':'), Some(("a:b".to_string(), "c".to_string())));
    assert_eq!(split_once_char(":x", ':'), Some((String::new(), "x".to_string())));
    assert_eq!(rsplit_once_char("x:", ':'), Some(("x".to_string(), String::new())));
    assert_eq!(split_once_char("abc", ':'), None);
    assert_eq!(rsplit_once_char("", ':'), None);
    assert_eq!(strip_leading_slashes("///a/b/"), "a/b/");
    assert_eq!(strip_leading_slashes("a"), "a");
    assert_eq!(strip_leading_slashes("//"), "");
}

#[test]
fn text_is_split_into_pieces_that_are_not_empty() {
    assert_eq!(split_columns("  a \t bb\r\n c  "), vec!["a", "bb", "c"]);
    assert!(split_columns(" \t ").is_empty());
    assert!(split_columns("").is_empty());
    assert_eq!(split_pieces("/a//b c/", Breaks::Slashes), vec!["a", "b c"]);
    assert_eq!(split_pieces("one\r\ntwo\n\nthree four", Breaks::LineEnds), vec![
        "one",
        "two",
        "three four"
    ]);
    assert!(breaks(' ', Breaks::Blanks) && breaks('\t', Breaks::Blanks));
    assert!(breaks('\n', Breaks::Blanks) && breaks('\r', Breaks::Blanks));
    assert!(!breaks('x', Breaks::Blanks) && !breaks('/', Breaks::Blanks));
    assert!(breaks('/', Breaks::Slashes) && !breaks(' ', Breaks::Slashes));
    assert!(breaks('\r', Breaks::LineEnds) && !breaks(' ', Breaks::LineEnds));
    let parts = vec!["a".to_string(), "b".to_string(), "c d".to_string()];
    assert_eq!(join_spaced(&parts, 0), "a b c d");
    assert_eq!(join_spaced(&parts, 2), "c d");
    assert_eq!(join_spaced(&parts, 3), "");
    assert_eq!(join_spaced(&parts, 9), "");
}

#[test]
fn numbers_are_written_and_read_in_decimal() {
    assert_eq!(decimal_text(0), "0");
    assert_eq!(decimal_text(7), "7");
    assert_eq!(decimal_text(4_294_967_295), "4294967295");
    assert_eq!(zero_pad(7, 2), "07");
    assert_eq!(zero_pad(123, 2), "123");
    assert_eq!(zero_pad(0, 4), "0000");
    assert_eq!(zero_pad(5, 0), "5");
    assert_eq!(stamp_text(2024, 3, 9, 14, 5, 0), "2024-03-09 14:05:00");
    assert_eq!(stamp_text(12345, 1, 1, 0, 0, 0), "12345-01-01 00:00:00");
    assert_eq!(parse_number("0"), Some(0));
    assert_eq!(parse_number("0199"), Some(199));
    assert_eq!(parse_number("999999999"), Some(999_999_999));
    assert_eq!(parse_number("1000000000"), None);
    assert_eq!(parse_number(""), None);
    assert_eq!(parse_number("12a"), None);
    assert_eq!(parse_number("-1"), None);
    assert_eq!(parse_number("+1"), None);
}

#[test]
fn index_keeps_one_entry_for_each_path() {
    let mut idx = FileIndex::new();
    assert_eq!(idx.len(), 0);
    idx.insert("a".to_string(), entry(file("/r/a"), 1));
    idx.insert("b".to_string(), entry(file("/r/b"), 2));
    idx.insert("a".to_string(), entry(dir("/r/a"), 3));
    assert_eq!(idx.len(), 2);
    assert_eq!(idx.find("a"), Some(0));
    assert_eq!(idx.find("b"), Some(1));
    assert_eq!(idx.find("c"), None);
    assert_eq!(idx.path_at(1), "b");
    assert_eq!(idx.entry_at(0).location, dir("/r/a"));
    assert_eq!(idx.get("a").unwrap().modified_at, Timestamp::new(3, 0));
    assert!(idx.contains_key("b"));
    assert!(!idx.contains_key(""));
    let copy = idx.get("b").unwrap().duplicate();
    assert_eq!(copy.location, file("/r/b"));
    assert_eq!(copy.display_time, "at 2");
}

fn copy_parts(r: Resolution) -> (LocTypes, LocTypes, Timestamp) {
    match r {
        Resolution::Copy { from, to, stamp } => (from, to, stamp),
        other => panic!("no copy was decided, but {:?}", other),
    }
}

#[test]
fn the_newer_file_is_copied_whichever_side_it_is_on() {
    let new = entry(file("/a/f"), 200);
    let old = entry(file("/b/f"), 100);
    let want = (file("/a/f"), file("/b/f"), Timestamp::new(200, 0));
    assert_eq!(copy_parts(duplicate_newer_file(&new, &old)), want);
    assert_eq!(copy_parts(duplicate_newer_file(&old, &new)), want);
    assert_eq!(copy_parts(resolve_present_in_both(&new, &old)), want);
    assert_eq!(copy_parts(resolve_present_in_both(&old, &new)), want);
    assert!(matches!(duplicate_newer_file(&new, &new), Resolution::Nothing));
    let nanos = FileEntry::new(file("/b/f"), Timestamp::new(200, 1), String::new());
    let (from, _, stamp) = copy_parts(resolve_present_in_both(&new, &nanos));
    assert_eq!(from, file("/b/f"));
    assert_eq!(stamp, Timestamp::new(200, 1));
    let forced = copy_parts(duplicate_newer_file_from_zip(&old, &new));
    assert_eq!(forced, (file("/b/f"), file("/a/f"), Timestamp::new(100, 0)));
}

#[test]
fn equal_times_and_folders_move_nothing() {
    let a = entry(file("/a/f"), 100);
    let b = entry(file("/b/f"), 100);
    assert!(matches!(resolve_present_in_both(&a, &b), Resolution::Nothing));
    let folder_a = entry(dir("/a/d"), 5);
    let folder_b = entry(dir("/b/d"), 900);
    assert!(matches!(resolve_present_in_both(&folder_a, &folder_b), Resolution::Nothing));
    assert!(matches!(resolve_present_in_both(&a, &folder_b), Resolution::Nothing));
    assert!(matches!(resolve_present_in_both(&folder_b, &a), Resolution::Nothing));
}

#[test]
fn an_archive_is_copied_from_and_never_into() {
    let packed = entry(zipped("/z.zip/f"), 500);
    let older = entry(file("/a/f"), 100);
    let newer = entry(file("/a/f"), 900);
    let want = (zipped("/z.zip/f"), file("/a/f"), Timestamp::new(500, 0));
    assert_eq!(copy_parts(resolve_present_in_both(&packed, &older)), want);
    assert_eq!(copy_parts(resolve_present_in_both(&older, &packed)), want);
    assert!(matches!(resolve_present_in_both(&packed, &newer), Resolution::Nothing));
    assert!(matches!(resolve_present_in_both(&newer, &packed), Resolution::Nothing));
    let other = entry(zipped("/y.zip/f"), 100);
    assert!(matches!(resolve_present_in_both(&packed, &other), Resolution::Nothing));
    let far = entry(remote("srv/f"), 100);
    let (from, to, _) = copy_parts(resolve_present_in_both(&far, &packed));
    assert_eq!((from, to), (zipped("/z.zip/f"), remote("srv/f")));
}

#[test]
fn an_entry_of_one_side_is_brought_over_or_removed() {
    let a = entry(file("/a/f"), 100);
    let b = dir("/b");
    for mode in [SyncMode::Any, SyncMode::Create, SyncMode::Modify] {
        match resolve_only_in_a(&a, "sub/f", &b, mode) {
            Resolution::Replicate { from, into, rel } => {
                assert_eq!(from, file("/a/f"));
                assert_eq!(into, dir("/b"));
                assert_eq!(rel, "sub/f");
            }
            other => panic!("the file was not brought over, but {:?}", other),
        }
    }
    match resolve_only_in_a(&a, "sub/f", &b, SyncMode::Delete) {
        Resolution::Remove { target } => assert_eq!(target, file("/a/f")),
        other => panic!("the file was not removed, but {:?}", other),
    }
    let sub = entry(dir("/a/sub"), 1);
    match resolve_only_in_a(&sub, "sub", &b, SyncMode::Any) {
        Resolution::MakeFolder { into, rel } => {
            assert_eq!(into, dir("/b"));
            assert_eq!(rel, "sub");
        }
        other => panic!("the folder was not made, but {:?}", other),
    }
    assert!(matches!(
        resolve_only_in_a(&sub, "sub", &b, SyncMode::Delete),
        Resolution::Remove { .. }
    ));
    let packed = entry(zipped("/z.zip/f"), 1);
    assert!(matches!(resolve_only_in_a(&packed, "f", &b, SyncMode::Delete), Resolution::Resync));
    assert!(matches!(
        resolve_only_in_a(&packed, "f", &b, SyncMode::Modify),
        Resolution::Replicate { .. }
    ));
}

#[test]
fn roots_are_left_alone_and_archives_lose_nothing() {
    let root = entry(dir("/a"), 1);
    for mode in [SyncMode::Any, SyncMode::Create, SyncMode::Modify, SyncMode::Delete] {
        assert!(matches!(resolve_only_in_a(&root, ".", &dir("/b"), mode), Resolution::Nothing));
        assert!(matches!(resolve_only_in_a(&root, ".", &remote("srv"), mode), Resolution::Nothing));
    }
    let a = entry(file("/a/f"), 100);
    assert!(matches!(
        resolve_only_in_a(&a, "f", &zipped("/z.zip"), SyncMode::Delete),
        Resolution::Nothing
    ));
    assert!(matches!(
        resolve_only_in_a(&a, "f", &zipped("/z.zip"), SyncMode::Any),
        Resolution::Replicate { .. }
    ));
}

#[test]
fn an_entry_is_resolved_against_the_other_snapshot() {
    let mut first = FileIndex::new();
    first.insert("both".to_string(), entry(file("/a/both"), 200));
    first.insert("mine".to_string(), entry(file("/a/mine"), 100));
    let mut second = FileIndex::new();
    second.insert("other".to_string(), entry(file("/b/other"), 100));
    second.insert("both".to_string(), entry(file("/b/both"), 100));
    let b = dir("/b");
    assert!(matches!(
        resolve_entry(&first, 0, &second, &b, SyncMode::Delete),
        Resolution::Copy { .. }
    ));
    assert!(matches!(
        resolve_entry(&first, 1, &second, &b, SyncMode::Delete),
        Resolution::Remove { .. }
    ));
    assert!(matches!(
        resolve_entry(&first, 1, &second, &b, SyncMode::Any),
        Resolution::Replicate { .. }
    ));
    assert!(matches!(resolve_entry(&first, 0, &first, &b, SyncMode::Any), Resolution::Nothing));
    assert!(matches!(resolve_entry(&first, 1, &first, &b, SyncMode::Delete), Resolution::Nothing));
}

#[test]
fn a_copy_reads_writes_and_stamps() {
    let copy = Resolution::Copy {
        from: file("/a/f"),
        to: file("/b/f"),
        stamp: Timestamp::new(200, 0),
    };
    let t = begin_item(copy);
    assert!(matches!(&t.call, Some(BackendCall::Read(l)) if *l == file("/a/f")));
    assert!(t.fault.is_none());
    let t = continue_item(t.stage, BackendReply::Content(Some(b"bytes".to_vec())));
    match &t.call {
        Some(BackendCall::Write(l, bytes)) => {
            assert_eq!(*l, file("/b/f"));
            assert_eq!(bytes, &b"bytes".to_vec());
        }
        other => panic!("no write followed the read, but {:?}", other),
    }
    let t = continue_item(t.stage, BackendReply::Done(Ok(())));
    match &t.call {
        Some(BackendCall::SetTimes(l, stamp)) => {
            assert_eq!(*l, file("/b/f"));
            assert_eq!(*stamp, Timestamp::new(200, 0));
        }
        other => panic!("no stamp followed the write, but {:?}", other),
    }
    let t = continue_item(t.stage, BackendReply::Done(Ok(())));
    assert!(t.call.is_none() && t.fault.is_none());
    assert!(matches!(t.stage, Stage::Idle));
}

#[test]
fn a_replication_creates_reads_and_writes() {
    let rep =
        Resolution::Replicate { from: file("/a/f"), into: dir("/b"), rel: "sub/f".to_string() };
    let t = begin_item(rep);
    match &t.call {
        Some(BackendCall::Create(l, kind)) => {
            assert_eq!(*l, file("/b/sub/f"));
            assert_eq!(*kind, CreateType::File);
        }
        other => panic!("nothing was created first, but {:?}", other),
    }
    let t = continue_item(t.stage, BackendReply::Done(Ok(())));
    assert!(matches!(&t.call, Some(BackendCall::Read(l)) if *l == file("/a/f")));
    let t = continue_item(t.stage, BackendReply::Content(Some(vec![1, 2])));
    assert!(matches!(&t.call, Some(BackendCall::Write(l, b)) if *l == file("/b/sub/f") && b == &vec![1, 2]));
    let t = continue_item(t.stage, BackendReply::Done(Ok(())));
    assert!(t.call.is_none() && t.fault.is_none());
}

#[test]
fn an_item_is_given_up_at_the_first_fault() {
    let copy = |to: LocTypes| Resolution::Copy {
        from: file("/a/f"),
        to,
        stamp: Timestamp::new(200, 0),
    };
    let t = begin_item(copy(file("/b/f")));
    let t = continue_item(t.stage, BackendReply::Content(None));
    assert!(t.call.is_none());
    assert_eq!(t.fault.unwrap().message(), "Invalid file for reading: Couldn't read file");
    assert!(matches!(t.stage, Stage::Idle));

    let t = begin_item(copy(file("/b/f")));
    let t = continue_item(t.stage, BackendReply::Done(Ok(())));
    assert_eq!(t.fault.unwrap().message(), "Invalid file for reading: Couldn't read file");

    let t = begin_item(copy(file("/b/f")));
    let t = continue_item(t.stage, BackendReply::Content(Some(Vec::new())));
    let failed = FileErrors::Unreachable("disk full".to_string());
    let t = continue_item(t.stage, BackendReply::Done(Err(failed)));
    assert!(t.call.is_none());
    assert_eq!(t.fault.unwrap().message(), "Backend unreachable: disk full");

    let t = begin_item(copy(zipped("/z.zip/f")));
    let t = continue_item(t.stage, BackendReply::Content(Some(Vec::new())));
    assert!(t.call.is_none());
    assert!(t.fault.unwrap().is_read_only());

    let t = begin_item(copy(file("/b/f")));
    let t = continue_item(t.stage, BackendReply::Content(Some(Vec::new())));
    let t = continue_item(t.stage, BackendReply::Content(None));
    assert_eq!(
        t.fault.unwrap().message(),
        "Backend unreachable: The backend gave no answer to the call"
    );

    let from_folder =
        Resolution::Copy { from: dir("/a/d"), to: file("/b/d"), stamp: Timestamp::epoch() };
    let t = begin_item(from_folder);
    assert!(t.call.is_none());
    assert_eq!(t.fault.unwrap().message(), "Invalid file for reading: Couldn't read file");

    let into_zip =
        Resolution::Replicate { from: file("/a/f"), into: zipped("/z.zip"), rel: "f".to_string() };
    let t = begin_item(into_zip);
    assert!(t.call.is_none());
    assert!(t.fault.unwrap().is_read_only());
}

#[test]
fn removing_and_making_folders_take_one_call() {
    let t = begin_item(Resolution::Remove { target: file("/a/f") });
    assert!(matches!(&t.call, Some(BackendCall::Delete(l)) if *l == file("/a/f")));
    let t = continue_item(t.stage, BackendReply::Done(Ok(())));
    assert!(t.call.is_none() && t.fault.is_none());
    let t = begin_item(Resolution::MakeFolder { into: dir("/b"), rel: "sub".to_string() });
    assert!(matches!(&t.call, Some(BackendCall::Create(_, CreateType::Folder))));
    let t = begin_item(Resolution::MakeFolder { into: dir("/b"), rel: "s.ub".to_string() });
    assert!(t.call.is_none() && t.fault.is_some());
    let t = begin_item(Resolution::Nothing);
    assert!(t.call.is_none() && t.fault.is_none());
    let t = begin_item(Resolution::Resync);
    assert!(t.call.is_none() && t.fault.is_none());
    let t = continue_item(Stage::Idle, BackendReply::Done(Ok(())));
    assert!(t.call.is_none() && t.fault.is_none());
}

#[test]
fn a_pass_visits_every_ordered_pair_of_different_locations() {
    let locs = vec![dir("/a"), dir("/b"), dir("/a"), dir("/c")];
    let mut journal = Vec::new();
    let mut seen = Vec::new();
    let (mut sweep, mut turn) = Sweep::start(SyncMode::Any).settle(&locs, &mut journal);
    loop {
        match turn {
            SweepTurn::Call(BackendCall::List(first)) => {
                assert!(matches!(sweep.phase, Phase::ListingFirst));
                let (s, t) = sweep.receive(&locs, BackendReply::Listed(Ok(FileIndex::new())), &mut journal);
                match t {
                    SweepTurn::Call(BackendCall::List(second)) => {
                        seen.push((first.to_text(), second.to_text()));
                        let r = s.receive(&locs, BackendReply::Listed(Ok(FileIndex::new())), &mut journal);
                        sweep = r.0;
                        turn = r.1;
                    }
                    other => panic!("the second location was not listed, but {:?}", other),
                }
            }
            SweepTurn::Finished => break,
            other => panic!("an empty tree led to {:?}", other),
        }
    }
    assert!(sweep.is_finished());
    let pair = |a: &str, b: &str| (a.to_string(), b.to_string());
    assert_eq!(seen, vec![
        pair("/a", "/b"),
        pair("/a", "/c"),
        pair("/b", "/a"),
        pair("/b", "/a"),
        pair("/b", "/c"),
        pair("/a", "/b"),
        pair("/a", "/c"),
        pair("/c", "/a"),
        pair("/c", "/b"),
        pair("/c", "/a"),
    ]);
    assert!(journal.is_empty());
    let (again, end) = sweep.settle(&locs, &mut journal);
    assert!(again.is_finished());
    assert!(matches!(end, SweepTurn::Finished));
}

#[test]
fn a_pass_out_of_step_comes_to_its_end() {
    let locs = vec![dir("/a"), dir("/b")];
    let mut journal = Vec::new();
    let lost = Sweep { mode: SyncMode::Any, first: 7, second: 0, phase: Phase::ListingFirst };
    let (s, t) = lost.receive(&locs, BackendReply::Done(Ok(())), &mut journal);
    assert!(s.is_finished());
    assert!(matches!(t, SweepTurn::Finished));
    let (s, t) = Sweep::start(SyncMode::Any).settle(&locs, &mut journal);
    assert!(matches!(t, SweepTurn::Call(_)));
    let (s, t) = s.receive(&locs, BackendReply::Content(None), &mut journal);
    assert_eq!(journal.len(), 1);
    assert_eq!(
        journal[0].message(),
        "Backend unreachable: The backend gave no answer to the call"
    );
    assert!(matches!(t, SweepTurn::Call(BackendCall::List(l)) if l == dir("/b")));
    assert_eq!((s.first, s.second), (1, 0));
}

#[test]
fn a_folder_on_a_server_is_a_folder() {
    let far = FileEntry::directory(remote("srv/docs"), Timestamp::new(900, 0), String::new());
    assert!(far.is_folder && !far.carries_bytes());
    assert!(entry(remote("srv/f"), 1).carries_bytes());
    assert!(entry(file("/a/f"), 1).carries_bytes());
    assert!(entry(zipped("/z.zip/f"), 1).carries_bytes());
    assert!(!entry(dir("/a/d"), 1).carries_bytes());
    assert!(entry(dir("/a/d"), 1).is_folder);
    let near = entry(file("/a/docs"), 100);
    assert!(matches!(resolve_present_in_both(&far, &near), Resolution::Nothing));
    assert!(matches!(resolve_present_in_both(&near, &far), Resolution::Nothing));
    match resolve_only_in_a(&far, "docs", &dir("/a"), SyncMode::Create) {
        Resolution::MakeFolder { into, rel } => {
            assert_eq!(into, dir("/a"));
            assert_eq!(rel, "docs");
        }
        other => panic!("the folder was not made, but {:?}", other),
    }
    match resolve_only_in_a(&far, "docs", &dir("/a"), SyncMode::Delete) {
        Resolution::Remove { target } => assert_eq!(target, remote("srv/docs")),
        other => panic!("the folder was not removed, but {:?}", other),
    }
}
