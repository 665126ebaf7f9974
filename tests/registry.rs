use regfs::dir_enum::{EnumAction, EnumEvent};
use regfs::entry::DirEntry;
use regfs::projfs::{Decision, NotificationKind};
use regfs::reg_ops::{key_listing, locate_key, locate_value, root_listing, Hive, KeyLocation};
use regfs::regfs::{listing_source, FsError, Listing, ListingSource, Lookup, Metadata, RegFs};

fn listed(fs: &mut RegFs, id: u128) -> Vec<DirEntry> {
    let mut out = Vec::new();
    let mut action = fs.get_dir_enum(id, true).unwrap();
    while action != EnumAction::Done {
        let event = match action {
            EnumAction::Test => EnumEvent::Matched(true),
            _ => {
                out.push(fs.sessions.current(id).unwrap().clone());
                EnumEvent::Filled
            }
        };
        action = fs.sessions.step(id, event).unwrap();
    }
    out
}

fn environment() -> (Vec<String>, Vec<(String, Vec<u8>)>) {
    (
        vec!["Sub".to_string()],
        vec![
            ("TEMP".to_string(), b"C:\\Temp\0".to_vec()),
            ("Path".to_string(), b"C:\\Windows;C:\\Tools\0".to_vec()),
            ("OneDrive".to_string(), Vec::new()),
        ],
    )
}

#[test]
fn root_listing_is_the_sorted_hives() {
    let names: Vec<String> = root_listing().into_iter().map(|e| {
        assert!(e.is_directory());
        e.name
    }).collect();
    assert_eq!(
        names,
        vec![
            "HKEY_CLASSES_ROOT",
            "HKEY_CURRENT_CONFIG",
            "HKEY_CURRENT_USER",
            "HKEY_LOCAL_MACHINE",
            "HKEY_USERS",
        ]
    );
}

#[test]
fn listing_the_root_through_a_session() {
    let mut fs = RegFs::new();
    assert_eq!(fs.start_dir_enum(7, Listing::Root), Ok(()));
    assert_eq!(listed(&mut fs, 7), root_listing());
}

#[test]
fn key_listing_merges_subkeys_and_values_sorted() {
    let (subkeys, values) = environment();
    let r = key_listing(&subkeys, &values);
    assert_eq!(
        r,
        vec![
            DirEntry::file("OneDrive".to_string(), 0),
            DirEntry::file("Path".to_string(), 20),
            DirEntry::directory("Sub".to_string()),
            DirEntry::file("TEMP".to_string(), 8),
        ]
    );
}

#[test]
fn value_size_agrees_across_listing_placeholder_and_content() {
    let (subkeys, values) = environment();
    let listing = key_listing(&subkeys, &values);
    for (name, bytes) in &values {
        let listed = listing.iter().find(|e| &e.name == name).unwrap();
        let info = RegFs::get_placeholder_info(Lookup::Missing, Some(Lookup::Found(bytes.clone()))).unwrap();
        let (data, offset) = RegFs::get_file_data(Lookup::Found(bytes.clone())).unwrap();
        assert_eq!(listed.size, Some(info.size));
        assert_eq!(info.size as usize, data.len());
        assert_eq!(&data, bytes);
        assert_eq!(offset, 0);
        assert!(!info.is_directory);
    }
}

#[test]
fn reading_a_value_gives_its_raw_bytes() {
    let path = b"C:\\Windows;C:\\Tools\0".to_vec();
    assert_eq!(RegFs::get_file_data(Lookup::Found(path.clone())), Ok((path, 0)));
    assert_eq!(RegFs::get_file_data(Lookup::Missing), Err(FsError::NotFound));
    assert_eq!(RegFs::get_file_data(Lookup::Failed(5)), Err(FsError::Platform(5)));
}

#[test]
fn missing_key_is_not_found_for_listing_and_placeholder() {
    let mut fs = RegFs::new();
    assert_eq!(fs.start_dir_enum(1, Listing::Missing), Err(FsError::NotFound));
    assert_eq!(fs.get_dir_enum(1, false), Err(FsError::UnknownEnumeration));
    assert_eq!(
        RegFs::get_placeholder_info(Lookup::Missing, Some(Lookup::Missing)),
        Err(FsError::NotFound)
    );
    assert!(matches!(locate_key("HKEY_NOWHERE\\Software"), KeyLocation::Absent));
    assert!(matches!(locate_key("HKEY_NOWHERE"), KeyLocation::Absent));
}

#[test]
fn failed_reads_carry_their_status() {
    let mut fs = RegFs::new();
    assert_eq!(fs.start_dir_enum(1, Listing::Failed(-5)), Err(FsError::Platform(-5)));
    assert_eq!(RegFs::get_placeholder_info(Lookup::Failed(9), None), Err(FsError::Platform(9)));
    assert_eq!(
        RegFs::get_placeholder_info(Lookup::Missing, Some(Lookup::Failed(3))),
        Err(FsError::Platform(3))
    );
}

#[test]
fn placeholder_of_a_key_is_a_directory() {
    assert_eq!(
        RegFs::get_placeholder_info(Lookup::Found(()), None),
        Ok(Metadata { is_directory: true, size: 0 })
    );
    assert_eq!(
        RegFs::get_placeholder_info(Lookup::Missing, Some(Lookup::Found(vec![1, 2, 3]))),
        Ok(Metadata { is_directory: false, size: 3 })
    );
}

#[test]
fn unknown_enumeration_id_always_gives_the_same_error() {
    let mut fs = RegFs::new();
    assert_eq!(fs.get_dir_enum(42, true), Err(FsError::UnknownEnumeration));
    assert_eq!(fs.get_dir_enum(42, false), Err(FsError::UnknownEnumeration));
    assert_eq!(fs.end_dir_enum(42), Err(FsError::UnknownEnumeration));
    assert_eq!(fs.sessions.step(42, EnumEvent::Filled), Err(FsError::UnknownEnumeration));
    let (subkeys, values) = environment();
    assert_eq!(fs.start_dir_enum(42, Listing::Key(subkeys, values)), Ok(()));
    assert_eq!(fs.end_dir_enum(42), Ok(()));
    assert_eq!(fs.end_dir_enum(42), Err(FsError::UnknownEnumeration));
    assert_eq!(fs.get_dir_enum(42, false), Err(FsError::UnknownEnumeration));
}

#[test]
fn sessions_do_not_share_cursors() {
    let mut fs = RegFs::new();
    fs.start_dir_enum(1, Listing::Root).unwrap();
    fs.start_dir_enum(2, Listing::Root).unwrap();
    assert_eq!(fs.get_dir_enum(1, false), Ok(EnumAction::Test));
    assert_eq!(fs.sessions.step(1, EnumEvent::Matched(false)), Ok(EnumAction::Test));
    assert_eq!(fs.sessions.current(1).unwrap().name, "HKEY_CURRENT_CONFIG");
    assert_eq!(fs.sessions.current(2).unwrap().name, "HKEY_CLASSES_ROOT");
}

#[test]
fn pending_delete_and_rename_are_denied() {
    let fs = RegFs::new();
    assert_eq!(fs.notify(NotificationKind::PreDelete), Decision::DenyAccess);
    assert_eq!(fs.notify(NotificationKind::PreRename), Decision::DenyDelete);
    assert!(fs.notify(NotificationKind::PreDelete).is_deny());
    assert!(!fs.sessions.contains(0));
}

#[test]
fn other_notifications_are_allowed() {
    let fs = RegFs::new();
    for kind in [
        NotificationKind::FileOpened,
        NotificationKind::NewFileCreated,
        NotificationKind::FileOverwritten,
        NotificationKind::FileRenamed,
        NotificationKind::FileHandleClosedNoModification,
        NotificationKind::FileHandleClosedFileModified,
        NotificationKind::FileHandleClosedFileDeleted,
        NotificationKind::HardlinkCreated,
    ] {
        assert_eq!(fs.notify(kind), Decision::Allow);
        assert!(!kind.is_pre_action());
    }
}

#[test]
fn key_paths_resolve_hive_first() {
    assert!(matches!(locate_key("HKEY_CURRENT_USER"), KeyLocation::Hive(Hive::CurrentUser)));
    match locate_key("HKEY_CURRENT_USER\\Environment\\Sub") {
        KeyLocation::Subkey(h, sub) => {
            assert_eq!(h, Hive::CurrentUser);
            assert_eq!(sub, "Environment\\Sub");
        }
        other => panic!("unexpected {:?}", other),
    }
    assert!(matches!(locate_key(""), KeyLocation::Absent));
    assert!(matches!(locate_key("hkey_users"), KeyLocation::Absent));
}

#[test]
fn value_paths_split_at_the_last_separator() {
    match locate_value("HKEY_CURRENT_USER\\Environment\\Path") {
        Some((KeyLocation::Subkey(h, sub), name)) => {
            assert_eq!(h, Hive::CurrentUser);
            assert_eq!(sub, "Environment");
            assert_eq!(name, "Path");
        }
        other => panic!("unexpected {:?}", other),
    }
    match locate_value("HKEY_USERS\\Value") {
        Some((KeyLocation::Hive(Hive::Users), name)) => assert_eq!(name, "Value"),
        other => panic!("unexpected {:?}", other),
    }
    assert!(matches!(locate_value("Nowhere\\x"), Some((KeyLocation::Absent, _))));
    assert!(locate_value("HKEY_USERS").is_none());
}

#[test]
fn hive_names_round_trip() {
    for h in [Hive::ClassesRoot, Hive::CurrentUser, Hive::LocalMachine, Hive::Users, Hive::CurrentConfig] {
        assert_eq!(Hive::from_name(h.name()), Some(h));
    }
    assert_eq!(Hive::from_name("HKEY_CURRENT_USERS"), None);
}

#[test]
fn listing_source_of_root_and_keys() {
    assert_eq!(listing_source(""), ListingSource::Root);
    assert_eq!(listing_source("HKEY_USERS"), ListingSource::Key(KeyLocation::Hive(Hive::Users)));
    assert_eq!(
        listing_source("HKEY_LOCAL_MACHINE\\SOFTWARE"),
        ListingSource::Key(KeyLocation::Subkey(Hive::LocalMachine, "SOFTWARE".to_string()))
    );
    assert_eq!(listing_source("Elsewhere"), ListingSource::Key(KeyLocation::Absent));
}
