use spacedrive_core::desktop::{
    get_file_path_open_with_apps, open_file_paths, partition_reveal_items, url_for,
    OpenFilePathResult, RevealItem,
};
use spacedrive_core::fs_ops::{
    context_menu_fs_path, decrypt_key_source, decrypt_output_name, local_thumbnail_path,
    save_task_fields, size_to_db, FileDecryptorJobInit, JobError, KeySource,
};
use spacedrive_core::ingest::{
    after_ingesting, ingest_batch, is_operation_old, messages_request, tick, TickInput, on_retrieving, on_waiting,
    receive_crdt_operation, CrdtOperation, Event, MessagesEvent, Request, State, Wake,
};
use spacedrive_core::custom_uri::{open_failure_status, thumbnail_request_allowed};
use spacedrive_core::tags::{plan_tag_assign, plan_tag_update, tag_update_fields, TagAssignArgs, TagAssignPlan};
use spacedrive_core::text::{push_decimal, str_eq};
use std::collections::HashMap;

#[test]
fn decimal_texts() {
    let mut s = String::from("n=");
    push_decimal(&mut s, 0);
    push_decimal(&mut s, 1907);
    assert_eq!(s, "n=01907");
    assert!(str_eq("abc", "abc"));
    assert!(!str_eq("abc", "abd"));
}

#[test]
fn opening_file_paths() {
    assert_eq!(open_file_paths(false, Ok(vec![])), vec![OpenFilePathResult::NoLibrary]);
    assert_eq!(
        open_file_paths(true, Err("db".to_string())),
        vec![OpenFilePathResult::Internal("db".to_string())]
    );
    assert_eq!(
        open_file_paths(true, Ok(vec![(1, None), (2, Some(Ok(()))), (3, Some(Err("no app".to_string())))])),
        vec![
            OpenFilePathResult::NoFile(1),
            OpenFilePathResult::AllGood(2),
            OpenFilePathResult::OpenError(3, "no app".to_string()),
        ]
    );
}

#[test]
fn applications_that_open_paths() {
    let apps = get_file_path_open_with_apps(true, Ok(vec![
        (1, Some(Ok(vec![("Viewer".to_string(), "viewer.desktop".to_string())]))),
        (2, None),
        (3, Some(Err("listing failed".to_string()))),
        (4, Some(Ok(vec![("A".to_string(), "a".to_string()), ("B".to_string(), "b".to_string())]))),
    ]));
    assert_eq!(apps.iter().map(|a| (a.id, a.name.as_str())).collect::<Vec<_>>(), vec![(1, "Viewer"), (4, "A"), (4, "B")]);
    assert_eq!(apps[2].url, "b");
    let listed = vec![(1, Some(Ok(vec![("Viewer".to_string(), "v".to_string())])))];
    assert!(get_file_path_open_with_apps(false, Ok(listed)).is_empty());
    assert!(get_file_path_open_with_apps(true, Err("db".to_string())).is_empty());
}

#[test]
fn urls_and_reveal_items() {
    let pairs = vec![(1, "a".to_string()), (2, "b".to_string()), (1, "c".to_string())];
    assert_eq!(url_for(&pairs, 1), Some(2));
    assert_eq!(url_for(&pairs, 5), None);
    let (paths, locations) = partition_reveal_items(&vec![
        RevealItem::FilePath { id: 1 },
        RevealItem::Location { id: 2 },
        RevealItem::FilePath { id: 3 },
    ]);
    assert_eq!(paths, vec![1, 3]);
    assert_eq!(locations, vec![2]);
}

#[test]
fn tag_assignments() {
    match plan_tag_assign(TagAssignArgs { object_ids: vec![4, 5], tag_id: 9, unassign: false }) {
        TagAssignPlan::Create { rows } => assert_eq!(rows, vec![(9, 4), (9, 5)]),
        other => panic!("unexpected {other:?}"),
    }
    match plan_tag_assign(TagAssignArgs { object_ids: vec![4], tag_id: 9, unassign: true }) {
        TagAssignPlan::Delete { tag_id, object_ids } => {
            assert_eq!(tag_id, 9);
            assert_eq!(object_ids, vec![4]);
        }
        other => panic!("unexpected {other:?}"),
    }
    assert_eq!(tag_update_fields(&Some("n".to_string()), &None), vec!["name"]);
    assert_eq!(tag_update_fields(&Some("n".to_string()), &Some("red".to_string())), vec!["name", "color"]);
    assert!(tag_update_fields(&None, &None).is_empty());
}

fn init(password: Option<&str>, save: Option<bool>) -> FileDecryptorJobInit {
    FileDecryptorJobInit {
        location_id: 1,
        path_id: 2,
        mount_associated_key: true,
        output_path: None,
        password: password.map(str::to_string),
        save_to_library: save,
    }
}

#[test]
fn decryption_choices() {
    assert_eq!(decrypt_output_name(None, "secret.txt.bytes"), "secret.txt");
    assert_eq!(decrypt_output_name(None, "photo.png"), "photo.decrypted");
    assert_eq!(decrypt_output_name(None, "noext"), "noext.decrypted");
    assert_eq!(decrypt_output_name(None, ".hidden"), ".hidden.decrypted");
    assert_eq!(decrypt_output_name(Some("/out/x".to_string()), "a.bytes"), "/out/x");
    assert_eq!(decrypt_key_source(&init(Some("pw"), Some(true))), Ok(KeySource::Password { save_to_library: true }));
    assert_eq!(
        decrypt_key_source(&init(Some("pw"), None)),
        Err(JobError::JobDataNotFound(
            "Password decryption selected, but save to library boolean was not included".to_string()
        ))
    );
    assert_eq!(decrypt_key_source(&init(None, None)), Ok(KeySource::Keystore { mount_associated_key: true }));
}

#[test]
fn paths_and_rows() {
    assert_eq!(context_menu_fs_path(Some("/loc"), "dir/file"), Ok("/loc/dir/file".to_string()));
    assert_eq!(context_menu_fs_path(Some("/loc/"), "f"), Ok("/loc/f".to_string()));
    assert_eq!(
        context_menu_fs_path(None, "f"),
        Err(JobError::MissingData { value: "path when cast as `PathBuf`".to_string() })
    );
    assert_eq!(size_to_db(258), vec![0, 0, 0, 0, 0, 0, 1, 2]);
    assert_eq!(size_to_db(u64::MAX), vec![255; 8]);
    assert_eq!(save_task_fields().len(), 11);
    assert_eq!(save_task_fields()[5], "size_in_bytes_bytes");
    assert_eq!(local_thumbnail_path("/data", 3, "abc"), "/data/thumbnails/3/abc.webp");
    assert_eq!(local_thumbnail_path("/data", -4, "abc"), "/data/thumbnails/-4/abc.webp");
}

#[test]
fn ingest_actor_transitions() {
    assert!(matches!(on_waiting(Event::Notification), Some(State::RetrievingMessages)));
    let ev = MessagesEvent { instance_id: 1, messages: vec![], has_more: false };
    assert!(on_waiting(Event::Messages(ev)).is_none());
    assert!(matches!(on_retrieving(Wake::RequestDropped), Some(State::WaitingForNotification)));
    assert!(on_retrieving(Wake::Event(Event::Notification)).is_none());
    let ev = MessagesEvent { instance_id: 1, messages: vec![], has_more: true };
    assert!(matches!(on_retrieving(Wake::Event(Event::Messages(ev))), Some(State::Ingesting(_))));
    assert!(matches!(after_ingesting(true), (State::RetrievingMessages, None)));
    assert!(matches!(after_ingesting(false), (State::WaitingForNotification, Some(Request::FinishedIngesting))));
    assert!(matches!(State::default(), State::WaitingForNotification));
}

#[test]
fn timestamps_only_grow() {
    let mut ts: HashMap<u128, u64> = HashMap::new();
    assert!(receive_crdt_operation(&mut ts, CrdtOperation { instance: 1, timestamp: 5 }, None));
    assert_eq!(ts[&1], 5);
    assert!(receive_crdt_operation(&mut ts, CrdtOperation { instance: 1, timestamp: 3 }, Some(3)));
    assert_eq!(ts[&1], 5);
    assert!(!receive_crdt_operation(&mut ts, CrdtOperation { instance: 1, timestamp: 9 }, Some(7)));
    assert_eq!(ts[&1], 5);
    assert!(is_operation_old(9, Some(7)));
    assert!(!is_operation_old(9, None));
    match messages_request(&ts) {
        Request::Messages { timestamps } => assert_eq!(timestamps, vec![(1, 5)]),
        other => panic!("unexpected {other:?}"),
    }
}

#[test]
fn an_ingest_tick_applies_the_batch_in_order() {
    let mut timestamps = std::collections::HashMap::new();
    timestamps.insert(1u128, 5u64);
    let event = MessagesEvent {
        instance_id: 1,
        messages: vec![
            CrdtOperation { instance: 1, timestamp: 7 },
            CrdtOperation { instance: 2, timestamp: 3 },
            CrdtOperation { instance: 1, timestamp: 9 },
        ],
        has_more: false,
    };
    let (applied, state, request) = ingest_batch(&mut timestamps, event, vec![None, Some(3), Some(10)]);
    assert_eq!(applied, vec![CrdtOperation { instance: 1, timestamp: 7 }, CrdtOperation { instance: 2, timestamp: 3 }]);
    assert_eq!(timestamps[&1], 7);
    assert_eq!(timestamps[&2], 3);
    assert!(matches!(state, State::WaitingForNotification));
    assert!(matches!(request, Some(Request::FinishedIngesting)));
    let more = MessagesEvent { instance_id: 1, messages: vec![], has_more: true };
    let (applied, state, request) = ingest_batch(&mut timestamps, more, vec![]);
    assert!(applied.is_empty());
    assert!(matches!(state, State::RetrievingMessages));
    assert!(request.is_none());
}

#[test]
fn empty_files_get_no_content_id() {
    assert!(!spacedrive_core::file_identifier::generates_cas_id(0));
    assert!(spacedrive_core::file_identifier::generates_cas_id(1));
}

#[test]
fn tag_update_plans_its_writes() {
    assert!(plan_tag_update(false, 3, Some("n".to_string()), None, 9).is_none());
    let plan = plan_tag_update(true, 3, None, Some("red".to_string()), 9).unwrap();
    assert_eq!(plan.tag_id, 3);
    assert_eq!(plan.date_modified, 9);
    assert_eq!(plan.synced, vec![("color", "red".to_string())]);
    assert_eq!(plan.name, None);
    assert_eq!(plan.color.as_deref(), Some("red"));
}

#[test]
fn ingest_ticks() {
    let mut timestamps = std::collections::HashMap::new();
    timestamps.insert(1u128, 5u64);
    let out = tick(State::WaitingForNotification, &mut timestamps, TickInput::Events(vec![
        Event::Messages(MessagesEvent { instance_id: 1, messages: vec![], has_more: false }),
        Event::Notification,
    ]));
    assert!(matches!(out.state, State::RetrievingMessages));
    let out = tick(State::RetrievingMessages, &mut timestamps, TickInput::Wakes(vec![
        Wake::Event(Event::Notification),
        Wake::Event(Event::Messages(MessagesEvent {
            instance_id: 1,
            messages: vec![CrdtOperation { instance: 1, timestamp: 8 }],
            has_more: false,
        })),
    ]));
    assert_eq!(out.requests.len(), 1);
    assert!(matches!(out.requests[0], Request::Messages { ref timestamps } if timestamps == &vec![(1, 5)]));
    let out = tick(out.state, &mut timestamps, TickInput::Readings(vec![None]));
    assert_eq!(out.applied, vec![CrdtOperation { instance: 1, timestamp: 8 }]);
    assert_eq!(timestamps[&1], 8);
    assert!(matches!(out.state, State::WaitingForNotification));
    assert!(matches!(out.requests[0], Request::FinishedIngesting));
    let out = tick(State::RetrievingMessages, &mut timestamps, TickInput::Wakes(vec![Wake::RequestDropped]));
    assert!(matches!(out.state, State::WaitingForNotification));
}

#[test]
fn thumbnail_requests_and_open_failures() {
    assert!(thumbnail_request_allowed(true, Some("webp")));
    assert!(!thumbnail_request_allowed(true, Some("png")));
    assert!(!thumbnail_request_allowed(false, Some("webp")));
    assert!(!thumbnail_request_allowed(true, None));
    assert_eq!(open_failure_status(true), 404);
    assert_eq!(open_failure_status(false), 500);
}
