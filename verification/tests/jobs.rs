use spacedrive_core::job_handle::{into_job, JobEnqueuer, JobHandle, Persist};
use spacedrive_core::job_report::{
    Command, JobName, JobOutput, JobOutputData, JobReturn, NonCriticalError, ProgressUpdate,
    ReportBuilder, ReportInputMetadata, ReportMetadata, ReportOutputMetadata, Status,
};
use spacedrive_core::job_runner::{
    runner_step, serialize_next_jobs_to_shutdown, JobSystemError, JobSystemRunner, ReturnStatus,
    RunnerAction, RunnerEvent, RunnerPhase,
};
use spacedrive_core::job_task::{
    live_controllers, should_shrink, spawned_job_command, supervisor_step, JobRunningState,
    SupervisorAction, SupervisorEvent, TaskControl,
};

#[test]
fn progress_updates() {
    assert!(matches!(ProgressUpdate::message("m".to_string()), ProgressUpdate::Message(m) if m == "m"));
    assert!(matches!(ProgressUpdate::phase("p".to_string()), ProgressUpdate::Phase(p) if p == "p"));
}

#[test]
fn job_return_builder_accumulates_errors() {
    let r = JobReturn::builder()
        .with_data(JobOutputData::Empty)
        .with_metadata(ReportOutputMetadata::Metric("files".to_string(), 3))
        .with_non_critical_errors(vec![NonCriticalError::FailedToExtractFileMetadata("a".to_string())])
        .with_non_critical_errors(vec![NonCriticalError::FailedToExtractIsolatedFilePathData("b".to_string())])
        .build();
    assert_eq!(r.non_critical_errors.len(), 2);
    assert!(matches!(r.metadata, Some(ReportOutputMetadata::Metric(ref k, 3)) if k == "files"));
    assert_eq!(
        r.non_critical_errors[1].text(),
        "failed to extract isolated file path data: b"
    );
    assert!(JobReturn::default().non_critical_errors.is_empty());
}

#[test]
fn completing_with_errors_records_their_texts() {
    let mut report = ReportBuilder::new(1, JobName::Indexer).build();
    let ret = JobReturn::builder()
        .with_non_critical_errors(vec![NonCriticalError::FailedToExtractFileMetadata("x".to_string())])
        .build();
    let out = JobOutput::prepare_output_and_report(ret, &mut report, 99);
    assert_eq!(report.status, Status::CompletedWithErrors);
    assert_eq!(report.non_critical_errors, vec!["failed to extract file metadata: x".to_string()]);
    assert_eq!(report.completed_at, Some(99));
    assert_eq!(out.status, Status::CompletedWithErrors);
    assert_eq!(out.id, 1);

    let mut report = ReportBuilder::new(2, JobName::MediaProcessor).build();
    let ret = JobReturn::builder().with_metadata(ReportOutputMetadata::Metric("n".to_string(), 1)).build();
    let out = JobOutput::prepare_output_and_report(ret, &mut report, 5);
    assert_eq!(report.status, Status::Completed);
    assert_eq!(report.metadata.len(), 1);
    assert_eq!(out.metadata.len(), 1);
}

#[test]
fn queued_jobs_take_numbered_actions() {
    let holder = JobEnqueuer::new(1, JobName::Indexer, 11)
        .with_action("scan_location".to_string())
        .with_metadata(ReportInputMetadata::Location(4))
        .enqueue_next(2, JobName::FileIdentifier, 22)
        .enqueue_next(3, JobName::MediaProcessor, 33)
        .build();
    assert_eq!(holder.job.report.action.as_deref(), Some("scan_location"));
    assert!(matches!(
        holder.job.report.metadata[0],
        ReportMetadata::Input(ReportInputMetadata::Location(4))
    ));
    assert_eq!(holder.next_jobs.len(), 2);
    assert_eq!(holder.next_jobs[0].report.action.as_deref(), Some("scan_location-1"));
    assert_eq!(holder.next_jobs[1].report.action.as_deref(), Some("scan_location-2"));
    assert_eq!(holder.next_jobs[1].report.parent_id, Some(1));
    assert_eq!(holder.next_jobs[1].report.status, Status::Queued);
    let plain = JobEnqueuer::new(5, JobName::Indexer, 1).enqueue_next(6, JobName::Indexer, 2).build();
    assert_eq!(plain.next_jobs[0].report.action, None);
}

fn handle_with_children() -> JobHandle {
    JobHandle::dispatch(
        JobEnqueuer::new(1, JobName::Indexer, 11)
            .enqueue_next(2, JobName::FileIdentifier, 22)
            .enqueue_next(3, JobName::MediaProcessor, 33)
            .build(),
    )
}

#[test]
fn commands_reach_queued_jobs_when_delivered() {
    let mut h = handle_with_children();
    assert_eq!(h.send_command(Command::Pause, true, 7), vec![2, 3]);
    assert_eq!(h.next_jobs[0].report.status, Status::Paused);
    assert_eq!(h.send_command(Command::Resume, true, 8), Vec::<u128>::new());
    assert_eq!(h.send_command(Command::Cancel, false, 9), Vec::<u128>::new());
    assert_eq!(h.next_jobs[1].report.status, Status::Paused);
    assert_eq!(h.send_command(Command::Cancel, true, 10), vec![2, 3]);
    assert_eq!(h.next_jobs[1].report.status, Status::Canceled);
    assert_eq!(h.next_jobs[1].report.completed_at, Some(10));
}

#[test]
fn starting_creates_missing_reports() {
    let mut h = handle_with_children();
    let plan = h.register_start(100);
    assert_eq!(plan.root, Persist::Create);
    assert_eq!(plan.children_to_create, vec![2, 3]);
    assert_eq!(h.report.status, Status::Running);
    assert_eq!(h.report.started_at, Some(100));
    h.report.created_at = Some(1);
    let plan = h.register_start(200);
    assert_eq!(plan.root, Persist::Update);
    assert_eq!(h.report.started_at, Some(100));
}

#[test]
fn failing_cancels_queued_jobs() {
    let mut h = handle_with_children();
    assert_eq!(h.failed_job("boom".to_string(), 5, Ok(())), Ok(vec![2, 3]));
    assert_eq!(h.report.status, Status::Failed);
    assert_eq!(h.report.critical_error.as_deref(), Some("boom"));
    assert_eq!(h.next_jobs[0].report.status, Status::Canceled);
    let mut h = handle_with_children();
    assert_eq!(h.shutdown_pause_job(5), vec![2, 3]);
    assert_eq!(h.report.status, Status::Paused);
}

#[test]
fn runner_refuses_a_job_with_a_running_hash() {
    let mut runner = JobSystemRunner::new();
    assert!(runner.is_empty());
    let h1 = JobHandle::dispatch(into_job(1, JobName::Indexer, 42));
    assert!(runner.new_job(7, 42, h1, 10).is_ok());
    assert!(runner.check_if_job_are_running(vec![JobName::Indexer], 7));
    assert!(!runner.check_if_job_are_running(vec![JobName::Indexer], 8));
    let h2 = JobHandle::dispatch(into_job(2, JobName::Indexer, 42));
    match runner.new_job(7, 42, h2, 10) {
        Err(JobSystemError::AlreadyRunning { new_id, already_running_id, job_name }) => {
            assert_eq!((new_id, already_running_id, job_name), (2, 1, JobName::Indexer));
        }
        other => panic!("expected a refusal, got {other:?}"),
    }
    assert_eq!(runner.total_jobs(), 1);
    assert!(matches!(runner.process_command(9, Command::Pause, true, 0), Err(JobSystemError::NotFound(9))));
}

#[test]
fn completed_job_dispatches_the_next_one() {
    let mut runner = JobSystemRunner::new();
    let handle = handle_with_children();
    runner.new_job(3, 11, handle, 10).unwrap();
    assert!(runner.can_retire(1));
    let effects = runner.process_return_status(1, Ok(ReturnStatus::Completed(JobReturn::default())), vec![], 0, Ok(()), 50);
    assert!(matches!(effects.output, Some(Ok(ref out)) if out.id == 1 && out.status == Status::Completed));
    let (next_id, plan) = effects.dispatched.expect("the queued job runs next");
    assert_eq!(next_id, 2);
    assert_eq!(plan.root, Persist::Create);
    assert_eq!(runner.queued_after(2), Some(1));
    assert!(!runner.can_retire(1));
}

#[test]
fn canceled_and_failed_jobs_stop() {
    let mut runner = JobSystemRunner::new();
    runner.new_job(3, 11, handle_with_children(), 10).unwrap();
    let effects = runner.process_return_status(1, Ok(ReturnStatus::Canceled), vec![], 0, Ok(()), 50);
    assert!(matches!(effects.output, Some(Err(JobSystemError::Canceled(1)))));
    assert_eq!(effects.reports_to_update, vec![2, 3]);
    assert!(runner.is_empty());
    runner.new_job(3, 11, handle_with_children(), 10).unwrap();
    let effects = runner.process_return_status(1, Err("disk".to_string()), vec![], 0, Ok(()), 50);
    assert!(matches!(effects.output, Some(Err(JobSystemError::Job(ref m))) if m == "disk"));
    assert!(runner.is_empty());
}

#[test]
fn shutdown_keeps_jobs_to_resume() {
    let mut runner = JobSystemRunner::new();
    runner.new_job(3, 11, handle_with_children(), 10).unwrap();
    let effects = runner.process_return_status(
        1,
        Ok(ReturnStatus::Shutdown(Ok(Some(vec![1])))),
        vec![Ok(Some(vec![2])), Ok(None)],
        77,
        Ok(()),
        50,
    );
    assert!(effects.output.is_none());
    assert!(!effects.update_report);
    let stored = runner.take_jobs_to_store().expect("a job was stored");
    let entries = &stored[&77];
    assert_eq!(entries.len(), 1);
    assert_eq!(entries[0].location_id, 3);
    assert_eq!(entries[0].root_job.serialized_job, vec![1]);
    assert_eq!(entries[0].next_jobs.len(), 1);
    assert_eq!(entries[0].next_jobs[0].id, 2);
    assert!(runner.take_jobs_to_store().is_none());
}

#[test]
fn a_failed_serialization_stores_nothing() {
    let holder = handle_with_children();
    assert!(serialize_next_jobs_to_shutdown(&holder.next_jobs, vec![Ok(Some(vec![1])), Err(())]).is_none());
    let stored = serialize_next_jobs_to_shutdown(&holder.next_jobs, vec![Ok(None), Ok(Some(vec![3]))]).unwrap();
    assert_eq!(stored.len(), 1);
    assert_eq!(stored[0].id, 3);
}

#[test]
fn spawned_job_commands() {
    assert_eq!(
        spawned_job_command(JobRunningState::Running, Command::Pause),
        (JobRunningState::Paused, TaskControl::Pause, false)
    );
    assert_eq!(
        spawned_job_command(JobRunningState::Paused, Command::Resume),
        (JobRunningState::Running, TaskControl::Resume, false)
    );
    assert_eq!(
        spawned_job_command(JobRunningState::Paused, Command::Cancel),
        (JobRunningState::Paused, TaskControl::Cancel, true)
    );
    assert_eq!(JobRunningState::default(), JobRunningState::Running);
    assert_eq!(live_controllers(&vec![true, false, false, true]), vec![1, 2]);
    assert!(should_shrink(64, 3));
    assert!(!should_shrink(32, 3));
    assert!(!should_shrink(64, 40));
}

#[test]
fn a_failed_report_write_leaves_queued_jobs() {
    let mut h = handle_with_children();
    assert_eq!(h.failed_job("boom".to_string(), 5, Err("db".to_string())), Err("db".to_string()));
    assert_eq!(h.report.status, Status::Failed);
    assert_eq!(h.next_jobs[0].report.status, Status::Queued);
    let mut h = handle_with_children();
    assert_eq!(h.cancel_job(5, Err("db".to_string())), Err("db".to_string()));
    assert_eq!(h.report.status, Status::Canceled);
    assert_eq!(h.next_jobs[1].report.status, Status::Queued);

    let mut runner = JobSystemRunner::new();
    runner.new_job(3, 11, handle_with_children(), 10).unwrap();
    let effects = runner.process_return_status(1, Err("disk".to_string()), vec![], 0, Err("db".to_string()), 50);
    assert!(matches!(effects.output, Some(Err(JobSystemError::Report(ref m))) if m == "db"));
    assert!(effects.reports_to_update.is_empty());
    assert_eq!(effects.handle.report.status, Status::Failed);
    assert!(runner.is_empty());
}

#[test]
fn starting_a_job_marks_its_report_running() {
    let mut runner = JobSystemRunner::new();
    let plan = runner.new_job(3, 11, handle_with_children(), 10).unwrap();
    assert_eq!(plan.root, Persist::Create);
    assert_eq!(plan.children_to_create, vec![2, 3]);
    let effects = runner.process_return_status(1, Ok(ReturnStatus::Shutdown(Ok(None))), vec![], 0, Ok(()), 20);
    assert_eq!(effects.handle.report.status, Status::Running);
    assert_eq!(effects.handle.report.started_at, Some(10));
}

#[test]
fn completed_job_hands_back_its_report() {
    let mut runner = JobSystemRunner::new();
    runner.new_job(3, 11, handle_with_children(), 10).unwrap();
    let effects = runner.process_return_status(1, Ok(ReturnStatus::Completed(JobReturn::default())), vec![], 0, Ok(()), 50);
    assert_eq!(effects.handle.report.status, Status::Completed);
    assert_eq!(effects.handle.report.completed_at, Some(50));
    assert!(effects.handle.next_jobs.is_empty());
    let (next_id, _) = effects.dispatched.unwrap();
    let effects = runner.process_return_status(next_id, Ok(ReturnStatus::Completed(JobReturn::default())), vec![], 0, Err("db".to_string()), 60);
    assert!(matches!(effects.output, Some(Err(JobSystemError::Report(_)))));
    let (last_id, _) = effects.dispatched.unwrap();
    assert_eq!(last_id, 3);
}

#[test]
fn runner_loop_drains_before_saving() {
    assert_eq!(runner_step(RunnerPhase::Serving, RunnerEvent::NewJob, true), (RunnerPhase::Serving, RunnerAction::RegisterJob { resumed: false }));
    assert_eq!(runner_step(RunnerPhase::Serving, RunnerEvent::ResumeStoredJob, true), (RunnerPhase::Serving, RunnerAction::RegisterJob { resumed: true }));
    assert_eq!(runner_step(RunnerPhase::Serving, RunnerEvent::CleanMemoryTick, false), (RunnerPhase::Serving, RunnerAction::CleanMemory));
    assert_eq!(runner_step(RunnerPhase::Serving, RunnerEvent::Shutdown, false), (RunnerPhase::Draining, RunnerAction::PollReturnStatus));
    assert_eq!(runner_step(RunnerPhase::Draining, RunnerEvent::ReturnStatus, false), (RunnerPhase::Draining, RunnerAction::ProcessReturnStatus));
    assert_eq!(runner_step(RunnerPhase::Draining, RunnerEvent::NoPendingStatus, false), (RunnerPhase::Draining, RunnerAction::PollReturnStatus));
    assert_eq!(runner_step(RunnerPhase::Draining, RunnerEvent::Command, false), (RunnerPhase::Draining, RunnerAction::Nothing));
    assert_eq!(runner_step(RunnerPhase::Draining, RunnerEvent::NoPendingStatus, true), (RunnerPhase::Stopped, RunnerAction::SaveJobsAndStop));
    assert_eq!(runner_step(RunnerPhase::Serving, RunnerEvent::StreamsEnded, false), (RunnerPhase::Stopped, RunnerAction::Stop));
    assert_eq!(runner_step(RunnerPhase::Stopped, RunnerEvent::NewJob, true), (RunnerPhase::Stopped, RunnerAction::Nothing));
}

#[test]
fn supervisor_steps() {
    assert_eq!(
        supervisor_step(JobRunningState::Running, SupervisorEvent::NewRemoteController),
        (JobRunningState::Running, SupervisorAction::TrackController)
    );
    assert_eq!(
        supervisor_step(JobRunningState::Running, SupervisorEvent::Command(Command::Pause)),
        (JobRunningState::Paused, SupervisorAction::ControlTasks { control: TaskControl::Pause, ends: false })
    );
    assert_eq!(
        supervisor_step(JobRunningState::Paused, SupervisorEvent::Command(Command::Cancel)),
        (JobRunningState::Paused, SupervisorAction::ControlTasks { control: TaskControl::Cancel, ends: true })
    );
    assert_eq!(
        supervisor_step(JobRunningState::Paused, SupervisorEvent::Done),
        (JobRunningState::Paused, SupervisorAction::ReportDone)
    );
}

#[test]
fn a_failed_resume_is_reported() {
    assert_eq!(
        supervisor_step(JobRunningState::Running, SupervisorEvent::ResumeFailed),
        (JobRunningState::Running, SupervisorAction::ReportResumeError)
    );
}
