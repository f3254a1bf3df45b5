use spacedrive_core::watcher::{
    handle_removes_eviction, take_by_inode, PendingPath, WatcherAction, WatcherEvent,
    WindowsEventHandler,
};

fn s(x: &str) -> String {
    x.to_string()
}

#[test]
fn removal_then_creation_is_a_rename() {
    let mut h = WindowsEventHandler::new(0);
    let a = h.handle_event(1, 2, WatcherEvent::Remove { path: s("C:/a/file.txt"), inode: (5, 6) }, 10);
    assert!(matches!(a, WatcherAction::Nothing));
    assert_eq!(h.to_remove_files.len(), 1);
    let a = h.handle_event(1, 2, WatcherEvent::CreateAny { path: s("C:/b/file.txt"), inode: (5, 6) }, 20);
    match a {
        WatcherAction::Rename { new_path, old_path } => {
            assert_eq!(new_path, "C:/b/file.txt");
            assert_eq!(old_path, "C:/a/file.txt");
        }
        other => panic!("expected a rename, got {other:?}"),
    }
    assert!(h.to_remove_files.is_empty());
}

#[test]
fn new_files_ignore_updates_for_a_second() {
    let mut h = WindowsEventHandler::new(0);
    let a = h.handle_event(1, 2, WatcherEvent::CreateAny { path: s("f"), inode: (1, 1) }, 5);
    assert!(matches!(a, WatcherAction::CreateDirOrFile { ref path } if path == "f"));
    h.record_created(s("f"), 5);
    assert!(matches!(h.handle_event(1, 2, WatcherEvent::ModifyAny { path: s("f") }, 6), WatcherAction::Nothing));
    assert!(matches!(
        h.handle_event(1, 2, WatcherEvent::ModifyAny { path: s("g") }, 6),
        WatcherAction::UpdateIfFile { ref path } if path == "g"
    ));
    // The clean-up runs once a second has passed since the last one.
    assert!(h.cleanup(900).is_empty());
    assert_eq!(h.recently_created_files.len(), 1);
    h.cleanup(1100);
    assert_eq!(h.last_check_recently_files, 1100);
    assert!(h.recently_created_files.is_empty());
}

#[test]
fn renames_wait_among_the_from_paths() {
    let mut h = WindowsEventHandler::new(0);
    let a = h.handle_event(1, 2, WatcherEvent::RenameFrom { path: s("old"), inode: (3, 3) }, 1);
    assert!(matches!(a, WatcherAction::Nothing));
    let a = h.handle_event(1, 2, WatcherEvent::RenameTo { path: s("new"), inode: (3, 3) }, 2);
    assert!(matches!(a, WatcherAction::Nothing));
    assert_eq!(h.rename_from_map.len(), 1);
    assert_eq!(h.rename_from_map[0].path, "new");
    assert!(h.rename_to_map.is_empty());
}

#[test]
fn overdue_removals_are_carried_out() {
    let mut h = WindowsEventHandler::new(0);
    h.handle_event(1, 2, WatcherEvent::Remove { path: s("x"), inode: (1, 0) }, 0);
    h.handle_event(1, 2, WatcherEvent::Remove { path: s("y"), inode: (2, 0) }, 150);
    let removed = h.cleanup(201);
    assert_eq!(removed.iter().map(|p| p.path.as_str()).collect::<Vec<_>>(), vec!["x"]);
    assert_eq!(h.to_remove_files.len(), 1);
    assert_eq!(h.last_check_rename_and_remove, 201);
}

fn pending(inode: u64, at: u64, path: &str) -> PendingPath {
    PendingPath { inode: (inode, 0), at, location_id: 1, path: s(path), library_id: 2 }
}

#[test]
fn eviction_splits_by_age() {
    let mut v = vec![pending(1, 0, "a"), pending(2, 100, "b"), pending(3, 50, "c")];
    let removed = handle_removes_eviction(&mut v, 200);
    assert_eq!(removed.iter().map(|p| p.path.as_str()).collect::<Vec<_>>(), vec!["a", "c"]);
    assert_eq!(v.iter().map(|p| p.path.as_str()).collect::<Vec<_>>(), vec!["b"]);
}

#[test]
fn taking_by_inode() {
    let mut v = vec![pending(1, 0, "a"), pending(2, 0, "b")];
    assert_eq!(take_by_inode(&mut v, (2, 0)).map(|p| p.path), Some(s("b")));
    assert!(take_by_inode(&mut v, (9, 0)).is_none());
    assert_eq!(v.len(), 1);
}

#[test]
fn rename_halves_name_the_new_path_by_their_kind() {
    let mut h = WindowsEventHandler::new(0);
    h.rename_to_map.push(PendingPath { inode: (7, 7), at: 1, location_id: 1, path: s("waiting"), library_id: 2 });
    match h.handle_event(1, 2, WatcherEvent::RenameTo { path: s("arrived"), inode: (7, 7) }, 2) {
        WatcherAction::Rename { new_path, old_path } => {
            assert_eq!(new_path, "arrived");
            assert_eq!(old_path, "waiting");
        }
        other => panic!("expected a rename, got {other:?}"),
    }
    h.rename_to_map.push(PendingPath { inode: (8, 8), at: 3, location_id: 1, path: s("waiting"), library_id: 2 });
    match h.handle_event(1, 2, WatcherEvent::RenameFrom { path: s("left"), inode: (8, 8) }, 4) {
        WatcherAction::Rename { new_path, old_path } => {
            assert_eq!(new_path, "waiting");
            assert_eq!(old_path, "left");
        }
        other => panic!("expected a rename, got {other:?}"),
    }
}
