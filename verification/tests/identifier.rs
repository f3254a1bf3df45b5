use spacedrive_core::file_identifier::{
    can_generate_media_data_for_image, files_requiring_new_object, find_object_for,
    insert_files_query, link_existing_objects, needs_media_data, next_cursor, orphan_rows,
    prepare_file_values, progress_message, task_count, unique_cas_ids, update_file_path_query,
    ExistingObject, FileCreated, FilePathRow, IdentifiedFile, ImageExtension,
};

fn file(pub_id: u128, cas: &str) -> IdentifiedFile {
    IdentifiedFile {
        pub_id,
        cas_id: cas.to_string(),
        kind: 5,
        extension: "png".to_string(),
        date_created: None,
    }
}

#[test]
fn unique_content_ids() {
    let files = vec![file(1, "a"), file(2, "b"), file(3, "a")];
    assert_eq!(unique_cas_ids(&files), vec!["a".to_string(), "b".to_string()]);
}

fn object(pub_id: u128, cas: &[Option<&str>]) -> ExistingObject {
    ExistingObject { pub_id, file_path_cas_ids: cas.iter().map(|c| c.map(str::to_string)).collect() }
}

#[test]
fn files_link_to_the_first_object_with_their_content() {
    let objects = vec![object(10, &[None, Some("x")]), object(20, &[Some("a")]), object(30, &[Some("a")])];
    assert_eq!(find_object_for("a", &objects), Some(20));
    assert_eq!(find_object_for("z", &objects), None);
    let files = vec![file(1, "a"), file(2, "b"), file(3, "x")];
    assert_eq!(link_existing_objects(&files, &objects), vec![Some(20), None, Some(10)]);
    assert_eq!(files_requiring_new_object(&files, &objects), vec![1]);
}

#[test]
fn media_data_extensions() {
    assert!(can_generate_media_data_for_image(&ImageExtension::Heic));
    assert!(can_generate_media_data_for_image(&ImageExtension::Jpg));
    assert!(!can_generate_media_data_for_image(&ImageExtension::Gif));
    assert!(!can_generate_media_data_for_image(&ImageExtension::Svg));
    assert!(needs_media_data("avif"));
    assert!(needs_media_data("jpeg"));
    assert!(!needs_media_data("gif"));
    assert!(!needs_media_data("JPG"));
}

#[test]
fn cursor_moves_to_the_last_row() {
    assert_eq!(next_cursor(&vec![3, 9, 12], 1), 12);
    assert_eq!(next_cursor(&vec![], 7), 7);
}

#[test]
fn tasks_of_a_hundred_paths() {
    assert_eq!(task_count(0), 0);
    assert_eq!(task_count(1), 1);
    assert_eq!(task_count(100), 1);
    assert_eq!(task_count(101), 2);
    assert_eq!(task_count(250), 3);
}

#[test]
fn insert_rows_and_queries() {
    let row = FilePathRow { id: 1, temp_cas_id: Some("abc".to_string()) };
    assert_eq!(prepare_file_values(&row), "(\"abc\",\"0\")");
    let rows = orphan_rows(&vec![
        row,
        FilePathRow { id: 2, temp_cas_id: None },
        FilePathRow { id: 3, temp_cas_id: Some("def".to_string()) },
    ]);
    assert_eq!(rows, vec!["(\"abc\",\"0\")".to_string(), "(\"def\",\"0\")".to_string()]);
    assert_eq!(
        insert_files_query(&rows),
        "INSERT INTO files (cas_id, size_in_bytes) VALUES (\"abc\",\"0\"), (\"def\",\"0\") ON CONFLICT (cas_id) DO NOTHING RETURNING id, cas_id"
    );
    assert_eq!(
        update_file_path_query(&FileCreated { id: 42, cas_id: "abc".to_string() }),
        "UPDATE file_paths SET file_id = \"42\" WHERE temp_cas_id = \"abc\""
    );
    assert_eq!(
        update_file_path_query(&FileCreated { id: -3, cas_id: "x".to_string() }),
        "UPDATE file_paths SET file_id = \"-3\" WHERE temp_cas_id = \"x\""
    );
    assert_eq!(progress_message(2, 5), "Processed 2 of 5 orphan files");
}
