use spacedrive_core::library::{
    database_url, default_key, edit_config, is_library_extension, library_config_file,
    library_db_file, library_entry_action, needs_node_reconcile, networked_library_action,
    platform_from_os, validate_library_name, DbFileCheck, Libraries, LibraryConfig,
    LibraryEntryAction, LibraryManagerError, LibraryManagerEvent, LoadedLibrary, MaybeUndefined,
    NetworkedLibraryAction, Platform,
};

const ID: u128 = 0x550e8400_e29b_41d4_a716_446655440000;

#[test]
fn library_names_must_not_be_blank() {
    assert_eq!(validate_library_name("My Library"), Ok(()));
    assert_eq!(validate_library_name(" x "), Ok(()));
    let err = Err(LibraryManagerError::InvalidConfig("name cannot be empty".to_string()));
    assert_eq!(validate_library_name(""), err);
    assert_eq!(validate_library_name(" \t\n"), err);
    assert_eq!(validate_library_name("\u{3000}\u{a0}"), err);
}

fn config() -> LibraryConfig {
    LibraryConfig { name: "old".to_string(), description: Some("desc".to_string()), instance_id: 0 }
}

#[test]
fn editing_a_config() {
    let c = edit_config(config(), Some("new".to_string()), MaybeUndefined::Undefined);
    assert_eq!(c.name, "new");
    assert_eq!(c.description.as_deref(), Some("desc"));
    let c = edit_config(config(), None, MaybeUndefined::Null);
    assert_eq!(c.name, "old");
    assert_eq!(c.description, None);
    let c = edit_config(config(), None, MaybeUndefined::Value("d2".to_string()));
    assert_eq!(c.description.as_deref(), Some("d2"));
}

#[test]
fn library_files_are_named_by_id() {
    assert_eq!(library_config_file(ID), "550e8400-e29b-41d4-a716-446655440000.sdlibrary");
    assert_eq!(library_db_file(ID), "550e8400-e29b-41d4-a716-446655440000.db");
    assert_eq!(library_db_file(0), "00000000-0000-0000-0000-000000000000.db");
    assert_eq!(database_url("/data/x.db"), "file:/data/x.db?socket_timeout=15&connection_limit=1");
}

#[test]
fn directory_entries_to_load() {
    let stem = "550e8400-e29b-41d4-a716-446655440000";
    assert_eq!(library_entry_action(true, true, Some(stem), DbFileCheck::Exists), LibraryEntryAction::Load(ID));
    assert_eq!(
        library_entry_action(true, true, Some("550E8400E29B41D4A716446655440000"), DbFileCheck::Exists),
        LibraryEntryAction::Load(ID)
    );
    assert_eq!(library_entry_action(true, true, Some(stem), DbFileCheck::Missing), LibraryEntryAction::Skip);
    assert_eq!(
        library_entry_action(true, true, Some(stem), DbFileCheck::Failed("denied".to_string())),
        LibraryEntryAction::Fail("denied".to_string())
    );
    assert_eq!(library_entry_action(true, true, Some("not-a-uuid"), DbFileCheck::Exists), LibraryEntryAction::Skip);
    assert_eq!(library_entry_action(false, true, Some(stem), DbFileCheck::Exists), LibraryEntryAction::Skip);
    assert_eq!(library_entry_action(true, false, Some(stem), DbFileCheck::Exists), LibraryEntryAction::Skip);
    assert_eq!(library_entry_action(true, true, None, DbFileCheck::Exists), LibraryEntryAction::Skip);
    assert!(is_library_extension(Some("sdlibrary")));
    assert!(!is_library_extension(Some("db")));
    assert!(!is_library_extension(None));
}

#[test]
fn platforms() {
    assert_eq!(platform_from_os("windows"), Platform::Windows);
    assert_eq!(platform_from_os("macos"), Platform::MacOS);
    assert_eq!(platform_from_os("linux"), Platform::Linux);
    assert_eq!(platform_from_os("freebsd"), Platform::Unknown);
    assert_eq!(Platform::Linux.as_i32(), 3);
    assert_eq!(Platform::Unknown.as_i32(), 0);
}

#[test]
fn node_reconciliation() {
    assert!(!needs_node_reconcile(1, 3, "node", 1, 3, "node"));
    assert!(needs_node_reconcile(1, 3, "node", 2, 3, "node"));
    assert!(needs_node_reconcile(1, 3, "node", 1, 1, "node"));
    assert!(needs_node_reconcile(1, 3, "node", 1, 3, "other"));
}

#[test]
fn the_last_default_key_wins() {
    assert_eq!(default_key(&vec![(1, true), (2, false), (3, true)]), Some(3));
    assert_eq!(default_key(&vec![(1, false)]), None);
    assert_eq!(default_key(&vec![(1, true), (0, true)]), None);
}

#[test]
fn library_events() {
    assert_eq!(networked_library_action(LibraryManagerEvent::Load(1)), NetworkedLibraryAction::Load(1));
    assert_eq!(
        networked_library_action(LibraryManagerEvent::InstancesModified(2)),
        NetworkedLibraryAction::Load(2)
    );
    assert_eq!(networked_library_action(LibraryManagerEvent::Edit(3)), NetworkedLibraryAction::Nothing);
    assert_eq!(networked_library_action(LibraryManagerEvent::Delete(4)), NetworkedLibraryAction::Delete(4));
}

#[test]
fn loaded_libraries() {
    let mut libs = Libraries::new();
    assert!(!libs.hash_library(ID));
    libs.insert(ID, LoadedLibrary { instance_id: 9, config: config() });
    assert!(libs.hash_library(ID));
    assert_eq!(libs.get_library(ID).map(|l| l.instance_id), Some(9));
    assert_eq!(libs.edit(ID, Some("n".to_string()), MaybeUndefined::Null), Ok(()));
    assert_eq!(libs.get_library(ID).unwrap().config.name, "n");
    assert_eq!(libs.edit(1, None, MaybeUndefined::Undefined), Err(LibraryManagerError::LibraryNotFound));
    assert_eq!(libs.delete(ID, Err("busy".to_string())).err(), Some(LibraryManagerError::FileIO("busy".to_string())));
    assert!(libs.hash_library(ID));
    assert!(matches!(libs.delete(ID, Ok(())), Ok(l) if l.instance_id == 9));
    assert!(libs.get_library(ID).is_none());
    assert!(matches!(libs.delete(ID, Ok(())), Err(LibraryManagerError::LibraryNotFound)));
}
