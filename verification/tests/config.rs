use advanced_rsync::config::{
    append_to_cfg, is_location, parse_args, parse_location_line, retrieve_locations,
};
use advanced_rsync::errors::ArgErrors;
use advanced_rsync::location::LocTypes;

#[test]
fn locations_are_a_kind_a_colon_and_a_path() {
    assert!(is_location("folder:/home/me/docs"));
    assert!(is_location("zip:/tmp/a.zip"));
    assert!(is_location("ftp:me:secret@example.org/srv"));
    assert!(is_location("folder: "));
    assert!(!is_location("folder:"));
    assert!(!is_location("file:/home/me"));
    assert!(!is_location("xfolder:/home/me"));
    assert!(!is_location(" folder:/home/me"));
    assert!(!is_location("/home/me"));
    assert!(!is_location(""));
}

#[test]
fn lines_are_read_by_their_kind() {
    assert_eq!(
        parse_location_line("folder:/home/me", true),
        Some(LocTypes::Folder("/home/me".to_string()))
    );
    assert_eq!(
        parse_location_line("zip:/tmp/a:b.zip", true),
        Some(LocTypes::Zip("/tmp/a:b.zip".to_string()))
    );
    assert_eq!(
        parse_location_line("ftp:me:secret@example.org/srv/data", true),
        Some(LocTypes::Ftp(
            "me".to_string(),
            "secret".to_string(),
            "example.org".to_string(),
            "srv/data".to_string()
        ))
    );
    assert_eq!(parse_location_line("folder:/home/me", false), None);
    assert_eq!(parse_location_line("file:/home/me", true), None);
    assert_eq!(parse_location_line("no colon", true), None);
}

#[test]
fn an_ftp_line_with_parts_missing_has_them_empty() {
    let empty = || String::new();
    assert_eq!(
        parse_location_line("ftp:example.org", true),
        Some(LocTypes::Ftp(empty(), empty(), empty(), empty()))
    );
    assert_eq!(
        parse_location_line("ftp:me@example.org/p", true),
        Some(LocTypes::Ftp(empty(), empty(), "example.org".to_string(), "p".to_string()))
    );
    assert_eq!(
        parse_location_line("ftp:me:pw@example.org", true),
        Some(LocTypes::Ftp("me".to_string(), "pw".to_string(), empty(), empty()))
    );
}

#[test]
fn configuration_yields_each_location_once_and_in_order() {
    let text = "folder:/a\nnot a location\r\nzip:/z.zip\n\nfolder:/a\nftp:u:p@h/d\n";
    let locs = retrieve_locations(text).unwrap();
    assert_eq!(
        locs,
        vec![
            LocTypes::Folder("/a".to_string()),
            LocTypes::Zip("/z.zip".to_string()),
            LocTypes::Ftp("u".to_string(), "p".to_string(), "h".to_string(), "d".to_string()),
        ]
    );
    let windows = retrieve_locations("folder:C:/a\r\nfolder:C:/b\r\n").unwrap();
    assert_eq!(
        windows,
        vec![LocTypes::Folder("C:/a".to_string()), LocTypes::Folder("C:/b".to_string())]
    );
}

#[test]
fn configuration_without_a_location_is_an_error() {
    assert!(matches!(retrieve_locations(""), Err(ArgErrors::EmptyCfg)));
    assert!(matches!(retrieve_locations("\n\n"), Err(ArgErrors::EmptyCfg)));
    assert!(matches!(retrieve_locations("nothing here\nfile:/x"), Err(ArgErrors::EmptyCfg)));
    assert_eq!(
        ArgErrors::EmptyCfg.message(),
        "Config file empty, use --help to give --set arg some location paths"
    );
}

#[test]
fn arguments_are_handed_back_where_all_are_locations() {
    assert!(matches!(parse_args(None), Ok(None)));
    let good = vec!["folder:/a".to_string(), "zip:/b.zip".to_string()];
    match parse_args(Some(good.clone())) {
        Ok(Some(back)) => assert_eq!(back, good),
        _ => panic!("good locations were refused"),
    }
    assert!(matches!(parse_args(Some(Vec::new())), Ok(Some(_))));
}

#[test]
fn the_first_argument_that_is_no_location_is_the_error() {
    let given = vec!["folder:/a".to_string(), "bad".to_string(), "worse".to_string()];
    match parse_args(Some(given)) {
        Err(e) => {
            assert_eq!(e.message(), "Invalid location format: bad");
            assert!(matches!(e, ArgErrors::InvalidLocation(_)));
        }
        Ok(_) => panic!("a bad location was accepted"),
    }
}

#[test]
fn only_new_locations_are_appended() {
    let existing = vec!["folder:/a".to_string(), "zip:/z.zip".to_string()];
    let given = vec!["zip:/z.zip".to_string(), "folder:/b".to_string(), "folder:/b".to_string()];
    assert_eq!(
        append_to_cfg(&existing, &given),
        vec!["folder:/b".to_string(), "folder:/b".to_string()]
    );
    assert!(append_to_cfg(&existing, &existing).is_empty());
    assert_eq!(append_to_cfg(&Vec::new(), &existing), existing);
}
