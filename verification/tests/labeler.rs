use spacedrive_core::labeler::{
    label_file, BatchProcessor, FileFacts, ImageFormat, LabelerError, ResultAction, MAX_FILE_SIZE,
};

fn facts(id: i32, ext: &str, size: u64) -> FileFacts {
    FileFacts { file_path_id: id, extension: Ok(ext.to_string()), size: Ok(size), read: Ok(()) }
}

#[test]
fn files_the_model_cannot_take() {
    assert!(label_file(facts(1, "png", 10)).is_ok());
    assert!(label_file(facts(1, "JPG", 10)).is_ok());
    assert_eq!(
        label_file(facts(2, "txt", 10)).unwrap_err(),
        LabelerError::UnsupportedExtension(2, "txt".to_string())
    );
    assert_eq!(
        label_file(facts(3, "png", MAX_FILE_SIZE + 1)).unwrap_err(),
        LabelerError::FileTooBig(3, MAX_FILE_SIZE + 1)
    );
    assert!(label_file(facts(3, "png", MAX_FILE_SIZE)).is_ok());
    let unreadable = FileFacts { read: Err("denied".to_string()), ..facts(4, "gif", 1) };
    assert_eq!(label_file(unreadable).unwrap_err(), LabelerError::FileIO("denied".to_string()));
    let no_path = FileFacts { extension: Err("no name".to_string()), ..facts(5, "gif", 1) };
    assert_eq!(label_file(no_path).unwrap_err(), LabelerError::IsolatedFilePath("no name".to_string()));
}

#[test]
fn batches_drain_as_results_come_back() {
    let mut p = BatchProcessor::new();
    let accepted = p.new_batch(vec![facts(1, "png", 1), facts(2, "doc", 1), facts(3, "webp", 1)]);
    assert_eq!(accepted.token, 0);
    assert_eq!(accepted.to_process.iter().map(|t| t.file_path_id).collect::<Vec<_>>(), vec![1, 3]);
    assert_eq!(accepted.errors, vec![(2, LabelerError::UnsupportedExtension(2, "doc".to_string()))]);
    assert_eq!(p.pending_count(0), Some(2));
    assert_eq!(p.on_result(0), ResultAction::Forward { finished: false });
    assert_eq!(p.pending_count(0), Some(1));
    assert_eq!(p.on_result(0), ResultAction::Forward { finished: true });
    assert_eq!(p.pending_count(0), None);
    assert_eq!(p.on_result(0), ResultAction::Ignore);
    let next = p.new_batch(vec![]);
    assert_eq!(next.token, 1);
    assert_eq!(p.pending_count(1), Some(0));
}

#[test]
fn files_are_sent_with_the_format_of_their_extension() {
    assert_eq!(label_file(facts(1, "JPG", 10)), Ok(ImageFormat::Jpeg));
    assert_eq!(label_file(facts(1, "png", 10)), Ok(ImageFormat::Png));
    assert_eq!(label_file(facts(1, "PgM", 10)), Ok(ImageFormat::Pnm));
    assert_eq!(label_file(facts(1, "exr", 10)), Ok(ImageFormat::OpenExr));
    assert_eq!(label_file(facts(1, "farbfeld", 10)), Ok(ImageFormat::Farbfeld));
    let mut p = BatchProcessor::new();
    let accepted = p.new_batch(vec![facts(1, "webp", 1), facts(2, "TIF", 1)]);
    assert_eq!(
        accepted.to_process.iter().map(|t| (t.file_path_id, t.format)).collect::<Vec<_>>(),
        vec![(1, ImageFormat::WebP), (2, ImageFormat::Tiff)]
    );
}

#[test]
fn collect_errors_come_before_read_errors() {
    let mut p = BatchProcessor::new();
    let unreadable = FileFacts { size: Err("no metadata".to_string()), ..facts(1, "png", 1) };
    let no_path = FileFacts { extension: Err("no name".to_string()), ..facts(2, "png", 1) };
    let accepted = p.new_batch(vec![unreadable, no_path, facts(3, "txt", 1)]);
    assert_eq!(
        accepted.errors,
        vec![
            (2, LabelerError::IsolatedFilePath("no name".to_string())),
            (3, LabelerError::UnsupportedExtension(3, "txt".to_string())),
            (1, LabelerError::FileIO("no metadata".to_string())),
        ]
    );
}
