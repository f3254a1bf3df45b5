use spacedrive_core::thumbnail::{
    ephemeral_target, get_shard_hex, is_old_shard, is_thumbnail_extension, library_thumbnail_move,
    migration_action, moved_count, needs_migration, plan_library_segregation, starting_version,
    MigrationAction, RenameOutcome, ThumbnailVersion,
};

#[test]
fn versions_and_migration_steps() {
    assert_eq!(starting_version(None), ThumbnailVersion::V1);
    assert_eq!(starting_version(Some(ThumbnailVersion::V2)), ThumbnailVersion::V2);
    assert!(needs_migration(ThumbnailVersion::V1));
    assert!(!needs_migration(ThumbnailVersion::V3));
    assert_eq!(ThumbnailVersion::latest(), ThumbnailVersion::V3);
    assert_eq!(migration_action(ThumbnailVersion::V1, ThumbnailVersion::V2), MigrationAction::MoveToShards);
    assert_eq!(migration_action(ThumbnailVersion::V2, ThumbnailVersion::V3), MigrationAction::SegregateByLibrary);
    assert_eq!(
        migration_action(ThumbnailVersion::Unknown, ThumbnailVersion::V1),
        MigrationAction::Unexpected { current_version: 0, next_version: 1 }
    );
    assert_eq!(ThumbnailVersion::from_int(2), Some(ThumbnailVersion::V2));
    assert_eq!(ThumbnailVersion::from_int(9), None);
    assert_eq!(ThumbnailVersion::V3.int_value(), 3);
}

#[test]
fn shards_and_moves() {
    assert_eq!(get_shard_hex("abcdef"), "abc");
    let m = library_thumbnail_move("abcdef");
    assert_eq!(m.shard, "abc");
    assert_eq!(m.new_path, "abc/abcdef.webp");
    assert_eq!(m.old_path, "ab/abcdef.webp");
    assert_eq!(ephemeral_target("123456.webp"), ("123".to_string(), "123/123456.webp".to_string()));
}

#[test]
fn segregation_plan() {
    let (moves, shards) = plan_library_segregation(&vec![
        Some("abc111".to_string()),
        None,
        Some("abc222".to_string()),
        Some("def333".to_string()),
    ]);
    assert_eq!(moves.len(), 3);
    assert_eq!(moves[2].old_path, "de/def333.webp");
    assert_eq!(shards, vec!["abc".to_string(), "def".to_string()]);
}

#[test]
fn moved_counts() {
    assert_eq!(moved_count(&vec![RenameOutcome::Moved, RenameOutcome::NotFound, RenameOutcome::Moved]), Ok(2));
    assert_eq!(
        moved_count(&vec![RenameOutcome::Moved, RenameOutcome::Failed("io".to_string())]),
        Err("io".to_string())
    );
}

#[test]
fn old_layout_checks() {
    assert!(is_old_shard("ab"));
    assert!(!is_old_shard("abc"));
    assert!(is_thumbnail_extension(Some("webp")));
    assert!(!is_thumbnail_extension(Some("png")));
    assert!(!is_thumbnail_extension(None));
}
