use advanced_rsync::backend::BackendCall;
use advanced_rsync::capability::{ReadOnly, ReadWrite};
use advanced_rsync::errors::FileErrors;
use advanced_rsync::location::{join_path, LocTypes};
use advanced_rsync::modes::{CreateType, SyncMode};
use advanced_rsync::time::Timestamp;
use advanced_rsync::watcher::{is_ignored, perform_check, ChangeKind, WatchEvent, HEARTBEAT_SECONDS};

fn ftp() -> LocTypes {
    LocTypes::Ftp("me".to_string(), "pw".to_string(), "example.org".to_string(), "srv".to_string())
}

fn zip() -> LocTypes {
    LocTypes::Zip("/data/a.zip".to_string())
}

fn folder() -> LocTypes {
    LocTypes::Folder("/home/me".to_string())
}

fn file() -> LocTypes {
    LocTypes::SimpleFile("/home/me/f.txt".to_string())
}

#[test]
fn display_strings_are_canonical() {
    assert_eq!(ftp().to_text(), "me:pw@example.org/srv");
    assert_eq!(zip().to_text(), "/data/a.zip");
    assert_eq!(folder().to_text(), "/home/me");
    assert_eq!(file().to_text(), "/home/me/f.txt");
    assert_eq!(join_path("parent", "child"), "parent/child");
}

#[test]
fn children_live_beneath_their_parent() {
    assert_eq!(folder().child("a/b"), LocTypes::SimpleFile("/home/me/a/b".to_string()));
    assert_eq!(zip().child("x"), LocTypes::SimpleFile("/data/a.zip/x".to_string()));
    assert_eq!(
        ftp().child("x"),
        LocTypes::Ftp(
            "me".to_string(),
            "pw".to_string(),
            "example.org".to_string(),
            "srv/x".to_string()
        )
    );
}

#[test]
fn descriptors_are_compared_by_full_value() {
    assert_eq!(folder(), folder().duplicate());
    assert_ne!(folder(), LocTypes::SimpleFile("/home/me".to_string()));
    assert_ne!(folder(), LocTypes::Folder("/home/you".to_string()));
    let other = LocTypes::Ftp(
        "me".to_string(),
        "pw2".to_string(),
        "example.org".to_string(),
        "srv".to_string(),
    );
    assert_ne!(ftp(), other);
}

#[test]
fn archive_refuses_every_mutation_as_read_only() {
    for refused in [
        zip().write_file(b"bytes"),
        zip().write_file(b""),
        zip().delete_file(),
        zip().create_file("x", CreateType::File),
        zip().create_file("y/z", CreateType::Folder),
    ] {
        match refused {
            Err(e) => {
                assert!(e.is_read_only());
                assert!(matches!(e, FileErrors::ReadOnlyBackend(_)));
                assert_eq!(e.message(), "Read-only backend: ZIP file is read-only");
            }
            Ok(call) => panic!("an archive accepted {:?}", call),
        }
    }
    assert!(matches!(zip().list_files(), Ok(BackendCall::List(_))));
    assert!(matches!(zip().read_file(), Some(BackendCall::Read(_))));
}

#[test]
fn a_single_file_cannot_be_listed() {
    match file().list_files() {
        Err(e) => assert_eq!(
            e.message(),
            "Invalid file for listing: a simple file could not be iterated"
        ),
        Ok(_) => panic!("a file was listed"),
    }
    match folder().list_files() {
        Ok(BackendCall::List(l)) => assert_eq!(l, folder()),
        _ => panic!("a folder was not listed"),
    }
    match ftp().list_files() {
        Ok(BackendCall::List(l)) => assert_eq!(l, ftp()),
        _ => panic!("a root was not listed"),
    }
}

#[test]
fn a_folder_has_no_bytes() {
    assert!(folder().read_file().is_none());
    match folder().write_file(b"x") {
        Err(e) => {
            assert_eq!(e.message(), "Invalid file for writing into it: A folder can't be written");
            assert!(!e.is_read_only());
        }
        Ok(_) => panic!("a folder was written"),
    }
    match file().write_file(b"x") {
        Ok(BackendCall::Write(l, bytes)) => {
            assert_eq!(l, file());
            assert_eq!(bytes, b"x".to_vec());
        }
        _ => panic!("a file was not written"),
    }
    assert!(matches!(ftp().write_file(b"x"), Ok(BackendCall::Write(_, _))));
    assert!(matches!(file().read_file(), Some(BackendCall::Read(_))));
}

#[test]
fn deleting_and_creating_name_their_place() {
    match folder().delete_file() {
        Ok(BackendCall::Delete(l)) => assert_eq!(l, folder()),
        _ => panic!("a folder was not deleted"),
    }
    match folder().create_file("sub/new.txt", CreateType::File) {
        Ok(BackendCall::Create(l, kind)) => {
            assert_eq!(l, LocTypes::SimpleFile("/home/me/sub/new.txt".to_string()));
            assert_eq!(kind, CreateType::File);
        }
        _ => panic!("a file was not created"),
    }
    match ftp().create_file("sub.d/new", CreateType::Folder) {
        Ok(BackendCall::Create(l, kind)) => {
            assert_eq!(l.to_text(), "me:pw@example.org/srv/sub.d/new");
            assert_eq!(kind, CreateType::Folder);
        }
        _ => panic!("a remote folder was not created"),
    }
}

#[test]
fn a_local_folder_with_a_dot_is_refused() {
    match folder().create_file("sub.d", CreateType::Folder) {
        Err(e) => assert_eq!(
            e.message(),
            "Invalid file for creating: Folders that contain a dot (.) are not accepted. Please rename"
        ),
        Ok(_) => panic!("a folder with a dot was created"),
    }
    assert!(folder().create_file("sub", CreateType::Folder).is_ok());
    let dotted = LocTypes::Folder("/home/me.d".to_string());
    assert!(dotted.create_file("sub", CreateType::Folder).is_err());
    assert!(dotted.create_file("sub", CreateType::File).is_ok());
}

#[test]
fn calls_know_whether_they_mutate() {
    assert!(!BackendCall::List(folder()).is_mutation());
    assert!(!BackendCall::Read(file()).is_mutation());
    assert!(BackendCall::Write(file(), Vec::new()).is_mutation());
    assert!(BackendCall::Delete(file()).is_mutation());
    assert!(BackendCall::Create(file(), CreateType::File).is_mutation());
    assert!(BackendCall::SetTimes(file(), Timestamp::epoch()).is_mutation());
    assert_eq!(BackendCall::Delete(file()).location(), &file());
}

#[test]
fn timestamps_are_ordered_by_seconds_then_nanoseconds() {
    let a = Timestamp::new(10, 5);
    assert!(Timestamp::new(11, 0).is_newer_than(&a));
    assert!(Timestamp::new(10, 6).is_newer_than(&a));
    assert!(!Timestamp::new(10, 5).is_newer_than(&a));
    assert!(!Timestamp::new(9, 999).is_newer_than(&a));
    assert!(Timestamp::new(0, 0).is_newer_than(&Timestamp::new(-1, 999_999_999)));
    assert_eq!(Timestamp::epoch(), Timestamp::new(0, 0));
}

#[test]
fn changes_stand_for_modes() {
    let event = |kind: ChangeKind, path: &str| WatchEvent::new(kind, vec![path.to_string()]);
    assert_eq!(event(ChangeKind::Created, "/a/f").implied_mode(), Some(SyncMode::Create));
    assert_eq!(event(ChangeKind::Removed, "/a/f").implied_mode(), Some(SyncMode::Delete));
    assert_eq!(event(ChangeKind::DataModified, "/a/f").implied_mode(), Some(SyncMode::Modify));
    assert_eq!(event(ChangeKind::Renamed, "/a/f").implied_mode(), Some(SyncMode::Delete));
    assert_eq!(event(ChangeKind::Other, "/a/f").implied_mode(), None);
    assert_eq!(event(ChangeKind::Removed, "/a/.DS_Store").implied_mode(), None);
    let mixed = WatchEvent::new(
        ChangeKind::Created,
        vec!["/a/f".to_string(), "/a/sub/.DSfoo".to_string()],
    );
    assert_eq!(mixed.implied_mode(), None);
    assert_eq!(WatchEvent::new(ChangeKind::Created, Vec::new()).implied_mode(), Some(SyncMode::Create));
    assert!(is_ignored("x.DS"));
    assert!(!is_ignored("x.D.S"));
    assert!(SyncMode::Delete.is_delete());
    assert!(!SyncMode::Any.is_delete());
}

#[test]
fn heartbeat_touches_the_first_folder() {
    let locs = vec![zip(), ftp(), folder(), LocTypes::Folder("/later".to_string())];
    let beat = perform_check(&locs).unwrap();
    let marker = LocTypes::SimpleFile("/home/me/.temp_check".to_string());
    match beat.create {
        BackendCall::Create(l, kind) => {
            assert_eq!(l, marker);
            assert_eq!(kind, CreateType::File);
        }
        other => panic!("the heartbeat begins with {:?}", other),
    }
    match beat.delete {
        BackendCall::Delete(l) => assert_eq!(l, marker),
        other => panic!("the heartbeat ends with {:?}", other),
    }
    assert!(perform_check(&vec![zip(), ftp(), file()]).is_none());
    assert!(perform_check(&Vec::new()).is_none());
    assert_eq!(HEARTBEAT_SECONDS, 20);
}

#[test]
fn every_fault_has_its_line() {
    let detail = || "detail".to_string();
    let all = [
        (FileErrors::InvalidFileForListing(detail()), "Invalid file for listing: detail"),
        (FileErrors::InvalidFileForWriting(detail()), "Invalid file for writing into it: detail"),
        (FileErrors::InvalidFileForDelete(detail()), "Invalid file for delete: detail"),
        (FileErrors::InvalidFileForReading(detail()), "Invalid file for reading: detail"),
        (FileErrors::InvalidFileForCreating(detail()), "Invalid file for creating: detail"),
        (FileErrors::ReadOnlyBackend(detail()), "Read-only backend: detail"),
        (FileErrors::Unreachable(detail()), "Backend unreachable: detail"),
    ];
    for (fault, line) in all {
        assert_eq!(fault.message(), line);
        assert_eq!(fault.duplicate().message(), line);
        assert_eq!(fault.is_read_only(), line.starts_with("Read-only"));
    }
    assert_eq!(FileErrors::Unreachable(String::new()).message(), "Backend unreachable: ");
}
