use spacedrive_core::media::{
    chunk_files, completed_task_count, foreground_split, pdf_last, plan_steps, preparing_message,
    prepare_args, thumbnail_batch, thumbnails_wait_cut_short, waiting_message,
    media_processor_setup, GenerateThumbnailArgs, MediaFilePath, MediaInitError,
    MediaProcessorJobInit, MediaProcessorJobStep,
};
use spacedrive_core::job_report::ProgressUpdate;

fn file(id: i32, mp: &str, name: &str, ext: &str) -> MediaFilePath {
    MediaFilePath {
        id,
        materialized_path: Some(mp.to_string()),
        is_dir: Some(false),
        name: Some(name.to_string()),
        extension: Some(ext.to_string()),
        cas_id: Some(format!("cas{id}")),
        object_id: None,
    }
}

fn files(n: i32) -> Vec<MediaFilePath> {
    (0..n).map(|i| file(i, "/", &format!("f{i}"), "png")).collect()
}

#[test]
fn files_are_processed_in_batches_of_ten() {
    let chunks = chunk_files(files(23));
    assert_eq!(chunks.iter().map(|c| c.len()).collect::<Vec<_>>(), vec![10, 10, 3]);
    assert_eq!(chunks[2][0].id, 20);
    assert!(chunk_files(vec![]).is_empty());
    assert_eq!(chunk_files(files(10)).len(), 1);
}

#[test]
fn steps_end_with_a_thumbnail_wait() {
    let steps = plan_steps(files(11), 5);
    assert_eq!(steps.len(), 3);
    assert!(matches!(&steps[0], MediaProcessorJobStep::ExtractMediaData(c) if c.len() == 10));
    assert!(matches!(&steps[1], MediaProcessorJobStep::ExtractMediaData(c) if c.len() == 1));
    assert!(matches!(steps[2], MediaProcessorJobStep::WaitThumbnails(5)));
    let steps = plan_steps(files(3), 0);
    assert_eq!(steps.len(), 1);
    assert!(plan_steps(vec![], 0).is_empty());
}

#[test]
fn progress_texts_and_counts() {
    assert_eq!(preparing_message(23, 3), "Preparing to process 23 files in 3 chunks");
    assert_eq!(waiting_message(7), "Waiting for processing of 7 thumbnails");
    assert_eq!(completed_task_count(2, 4), 24);
    assert!(thumbnails_wait_cut_short(true, 3, 5));
    assert!(!thumbnails_wait_cut_short(true, 5, 5));
    assert!(!thumbnails_wait_cut_short(false, 3, 5));
}

#[test]
fn thumbnail_arguments() {
    let f = file(1, "/photos/", "cat", "png");
    let a = prepare_args("/loc", &f).unwrap();
    assert_eq!(a.extension, "png");
    assert_eq!(a.cas_id, "cas1");
    assert_eq!(a.path, "/loc/photos/cat.png");
    let a = prepare_args("/loc/", &file(2, "/", "README", "")).unwrap();
    assert_eq!(a.path, "/loc/README");
    let no_cas = MediaFilePath { cas_id: None, ..file(3, "/", "x", "png") };
    assert!(prepare_args("/loc", &no_cas).is_none());
    let no_name = MediaFilePath { name: None, ..file(4, "/", "x", "png") };
    assert!(prepare_args("/loc", &no_name).is_none());
}

#[test]
fn first_directory_in_foreground() {
    let fs = vec![file(1, "/a/", "x", "png"), file(2, "/a/", "y", "png"), file(3, "/a/b/", "z", "png")];
    assert_eq!(foreground_split(&fs), 2);
    assert_eq!(foreground_split(&fs[..2].to_vec()), 2);
    assert_eq!(foreground_split(&vec![]), 0);
    let fg = thumbnail_batch("/loc", &fs, 0, 2);
    let bg = thumbnail_batch("/loc", &fs, 2, 3);
    assert_eq!(fg.len(), 2);
    assert_eq!(bg[0].path, "/loc/a/b/z.png");
}

fn args(ext: &str, cas: &str) -> GenerateThumbnailArgs {
    GenerateThumbnailArgs { extension: ext.to_string(), cas_id: cas.to_string(), path: String::new() }
}

#[test]
fn pdfs_go_last() {
    let sorted = pdf_last(vec![args("pdf", "1"), args("png", "2"), args("pdf", "3"), args("jpg", "4")]);
    assert_eq!(
        sorted.iter().map(|a| a.cas_id.as_str()).collect::<Vec<_>>(),
        vec!["2", "4", "1", "3"]
    );
}

#[test]
fn job_targets_its_location() {
    let init = MediaProcessorJobInit {
        location_id: 8,
        location_path: Some("/loc".to_string()),
        sub_path: None,
        regenerate_thumbnails: false,
    };
    assert_eq!(init.target_location(), 8);
}

#[test]
fn media_processor_setup_records_its_data() {
    let files: Vec<MediaFilePath> = (0..12).map(|i| file(i, "/", "f", "png")).collect();
    let setup = media_processor_setup(Some("/loc".to_string()), None, 3, files).unwrap();
    assert_eq!(setup.location_path, "/loc");
    assert_eq!(setup.to_process_path, "/loc");
    assert!(setup.receives_thumbnailer_progress);
    assert_eq!(setup.thumbs_processed, 3);
    assert_eq!(setup.steps.len(), 3);
    assert!(matches!(setup.progress[0], ProgressUpdate::TaskCount(12)));
    assert!(matches!(setup.progress[1], ProgressUpdate::Phase(ref p) if p == "media_data"));
    assert!(matches!(setup.progress[2], ProgressUpdate::Message(ref m) if m == "Preparing to process 12 files in 3 chunks"));
    let setup = media_processor_setup(Some("/loc".to_string()), Some("/loc/sub".to_string()), 0, vec![]).unwrap();
    assert_eq!(setup.to_process_path, "/loc/sub");
    assert!(!setup.receives_thumbnailer_progress);
    assert!(setup.steps.is_empty());
    assert_eq!(media_processor_setup(None, None, 0, vec![]).err(), Some(MediaInitError::MissingLocationPath));
}
