//! Jobs waiting to run, the handle of a dispatched job, and what its commands
//! do to its own report and to the reports of the jobs queued after it.
use vstd::prelude::*;

use crate::job_report::{
    is_fresh_report, completed_report_matches, Command, JobName, JobOutput, JobReturn, Report,
    ReportBuilder, ReportInputMetadata, ReportMetadata, Status,
};
use crate::text::{decimal, push_decimal};

verus! {

/// A job that is not dispatched yet: its identity, its kind, the hash of its
/// parameters (two jobs with the same hash never run together) and its report.
#[derive(Debug)]
pub struct QueuedJob {
    pub id: u128,
    pub name: JobName,
    pub hash: u64,
    pub report: Report,
}

/// A job together with the jobs that run after it, in order.
#[derive(Debug)]
pub struct JobHolder {
    pub job: QueuedJob,
    pub next_jobs: Vec<QueuedJob>,
}

/// The handle the job system keeps of a dispatched job.
#[derive(Debug)]
pub struct JobHandle {
    pub id: u128,
    pub name: JobName,
    pub report: Report,
    pub next_jobs: Vec<QueuedJob>,
}

/// How a report must be persisted.
#[derive(Debug, Clone, Copy, PartialEq, Eq, Structural)]
pub enum Persist {
    Create,
    Update,
}

/// What registering the start of a job asks of the database.
#[derive(Debug)]
pub struct StartPlan {
    pub root: Persist,
    pub children_to_create: Vec<u128>,
}

/// The report of a job queued after a job that received `command` at time `now`.
pub open spec fn commanded_report(r: Report, command: Command, now: i64) -> Report {
    match command {
        Command::Pause => Report { status: Status::Paused, completed_at: None, ..r },
        Command::Resume => r,
        Command::Cancel => Report { status: Status::Canceled, completed_at: Some(now), ..r },
    }
}

/// A queued job after its parent received `command` at time `now`.
pub open spec fn commanded_job(j: QueuedJob, command: Command, now: i64) -> QueuedJob {
    QueuedJob { report: commanded_report(j.report, command, now), ..j }
}

/// The queued jobs after their parent received `command` at time `now`.
pub open spec fn commanded_jobs(jobs: Seq<QueuedJob>, command: Command, now: i64) -> Seq<QueuedJob> {
    jobs.map_values(|j: QueuedJob| commanded_job(j, command, now))
}

/// The identities of a list of queued jobs.
pub open spec fn job_ids(jobs: Seq<QueuedJob>) -> Seq<u128> {
    jobs.map_values(|j: QueuedJob| j.id)
}

/// The identities of the queued jobs whose report was never created, in order.
pub open spec fn uncreated_ids(jobs: Seq<QueuedJob>) -> Seq<u128>
    decreases jobs.len(),
{
    if jobs.len() == 0 {
        Seq::empty()
    } else {
        let rest = uncreated_ids(jobs.drop_last());
        if jobs.last().report.created_at is None {
            rest.push(jobs.last().id)
        } else {
            rest
        }
    }
}

/// The report of a job after its start was registered at `start_time`.
pub open spec fn started_report(r: Report, start_time: i64) -> Report {
    Report {
        status: Status::Running,
        started_at: if r.started_at is None { Some(start_time) } else { r.started_at },
        ..r
    }
}

impl JobHandle {
    /// The handle of a job that is being dispatched.
    pub fn dispatch(holder: JobHolder) -> (r: Self)
        ensures
            r.id == holder.job.id,
            r.name == holder.job.name,
            r.report == holder.job.report,
            r.next_jobs == holder.next_jobs,
    {
        let JobHolder { job, next_jobs } = holder;
        JobHandle { id: job.id, name: job.name, report: job.report, next_jobs }
    }

    /// Applies `command` to the reports of the jobs queued after this one; the
    /// result lists the reports that must be written back (none for `Resume`).
    pub fn command_children(&mut self, command: Command, now: i64) -> (to_update: Vec<u128>)
        ensures
            final(self).next_jobs@ == commanded_jobs(old(self).next_jobs@, command, now),
            final(self).id == old(self).id,
            final(self).name == old(self).name,
            final(self).report == old(self).report,
            to_update@ == (if command == Command::Resume {
                Seq::<u128>::empty()
            } else {
                job_ids(old(self).next_jobs@)
            }),
    {
        let mut ids: Vec<u128> = Vec::new();
        if command == Command::Resume {
            proof {
                assert(commanded_jobs(old(self).next_jobs@, command, now) =~= old(self).next_jobs@);
            }
            return ids;
        }
        let mut rest: Vec<QueuedJob> = Vec::new();
        std::mem::swap(&mut rest, &mut self.next_jobs);
        let ghost all = rest@;
        let mut done: Vec<QueuedJob> = Vec::new();
        let mut i: usize = 0;
        let n = rest.len();
        while rest.len() > 0
            invariant
                n == all.len(),
                i + rest@.len() == n,
                rest@ == all.subrange(i as int, n as int),
                done@ == commanded_jobs(all.subrange(0, i as int), command, now),
                ids@ == job_ids(all.subrange(0, i as int)),
                command != Command::Resume,
            decreases rest@.len(),
        {
            let mut j = rest.remove(0);
            proof {
                assert(j == all[i as int]);
            }
            match command {
                Command::Pause => {
                    j.report.status = Status::Paused;
                    j.report.completed_at = None;
                },
                Command::Cancel => {
                    j.report.status = Status::Canceled;
                    j.report.completed_at = Some(now);
                },
                Command::Resume => {},
            }
            ids.push(j.id);
            done.push(j);
            proof {
                assert(all.subrange(0, i + 1) =~= all.subrange(0, i as int).push(all[i as int]));
                assert(done@ =~= commanded_jobs(all.subrange(0, i + 1), command, now));
                assert(ids@ =~= job_ids(all.subrange(0, i + 1)));
                assert(rest@ =~= all.subrange(i + 1, n as int));
            }
            i = i + 1;
        }
        proof {
            assert(all.subrange(0, n as int) =~= all);
        }
        self.next_jobs = done;
        ids
    }

    /// Sends `command` to the job; when it was `delivered` (the job was still
    /// running), the jobs queued after it are commanded too.
    pub fn send_command(&mut self, command: Command, delivered: bool, now: i64) -> (to_update: Vec<
        u128,
    >)
        ensures
            final(self).id == old(self).id,
            final(self).name == old(self).name,
            final(self).report == old(self).report,
            delivered ==> final(self).next_jobs@ == commanded_jobs(old(self).next_jobs@, command, now),
            !delivered ==> final(self).next_jobs == old(self).next_jobs,
            to_update@ == (if !delivered || command == Command::Resume {
                Seq::<u128>::empty()
            } else {
                job_ids(old(self).next_jobs@)
            }),
    {
        if delivered {
            self.command_children(command, now)
        } else {
            Vec::new()
        }
    }

    /// Marks the job as running; the plan says whether its report must be
    /// created or updated and which queued jobs' reports must be created.
    pub fn register_start(&mut self, start_time: i64) -> (plan: StartPlan)
        ensures
            final(self).report == started_report(old(self).report, start_time),
            final(self).next_jobs == old(self).next_jobs,
            final(self).id == old(self).id,
            final(self).name == old(self).name,
            plan.root == (if old(self).report.created_at is None {
                Persist::Create
            } else {
                Persist::Update
            }),
            plan.children_to_create@ == uncreated_ids(old(self).next_jobs@),
    {
        self.report.status = Status::Running;
        if self.report.started_at.is_none() {
            self.report.started_at = Some(start_time);
        }
        let root = if self.report.created_at.is_none() {
            Persist::Create
        } else {
            Persist::Update
        };
        let mut children: Vec<u128> = Vec::new();
        let mut i: usize = 0;
        while i < self.next_jobs.len()
            invariant
                i <= self.next_jobs.len(),
                children@ == uncreated_ids(self.next_jobs@.subrange(0, i as int)),
            decreases self.next_jobs.len() - i,
        {
            proof {
                let s = self.next_jobs@.subrange(0, i + 1);
                assert(s.drop_last() =~= self.next_jobs@.subrange(0, i as int));
            }
            if self.next_jobs[i].report.created_at.is_none() {
                children.push(self.next_jobs[i].id);
            }
            i = i + 1;
        }
        proof {
            assert(self.next_jobs@.subrange(0, self.next_jobs.len() as int) =~= self.next_jobs@);
        }
        StartPlan { root, children_to_create: children }
    }

    /// Completes the job with `job_return` at time `now`.
    pub fn complete_job(&mut self, job_return: JobReturn, now: i64) -> (r: JobOutput)
        ensures
            completed_report_matches(old(self).report, final(self).report, job_return, now),
            final(self).next_jobs == old(self).next_jobs,
            final(self).id == old(self).id,
            final(self).name == old(self).name,
            r.id == final(self).report.id,
            r.status == final(self).report.status,
            r.job_name == final(self).report.name,
            r.data == job_return.data,
            r.metadata@ == final(self).report.metadata@,
            r.non_critical_errors == job_return.non_critical_errors,
    {
        JobOutput::prepare_output_and_report(job_return, &mut self.report, now)
    }

    /// Records that the job failed with a critical error; `report_write` is
    /// the outcome of writing that report. Only once it is written are the
    /// jobs queued after it canceled (the result lists their reports to
    /// write back); a failed write is handed back and leaves them as they were.
    pub fn failed_job(&mut self, error: String, now: i64, report_write: Result<(), String>) -> (r: Result<
        Vec<u128>,
        String,
    >)
        ensures
            final(self).report == (Report {
                status: Status::Failed,
                critical_error: Some(error),
                completed_at: Some(now),
                ..old(self).report
            }),
            final(self).id == old(self).id,
            final(self).name == old(self).name,
            report_write is Ok ==> (r matches Ok(ids) && ids@ == job_ids(old(self).next_jobs@))
                && final(self).next_jobs@ == commanded_jobs(old(self).next_jobs@, Command::Cancel, now),
            report_write matches Err(w) ==> r == Err::<Vec<u128>, String>(w) && final(self).next_jobs
                == old(self).next_jobs,
    {
        self.report.status = Status::Failed;
        self.report.critical_error = Some(error);
        self.report.completed_at = Some(now);
        match report_write {
            Ok(()) => Ok(self.command_children(Command::Cancel, now)),
            Err(w) => Err(w),
        }
    }

    /// Pauses the job because the system shuts down, and pauses the jobs queued after it.
    pub fn shutdown_pause_job(&mut self, now: i64) -> (to_update: Vec<u128>)
        ensures
            final(self).report == (Report { status: Status::Paused, ..old(self).report }),
            final(self).next_jobs@ == commanded_jobs(old(self).next_jobs@, Command::Pause, now),
            final(self).id == old(self).id,
            final(self).name == old(self).name,
            to_update@ == job_ids(old(self).next_jobs@),
    {
        self.report.status = Status::Paused;
        self.command_children(Command::Pause, now)
    }

    /// Cancels the job; `report_write` is the outcome of writing its report.
    /// Only once it is written are the jobs queued after it canceled (the
    /// result lists their reports to write back); a failed write is handed
    /// back and leaves them as they were.
    pub fn cancel_job(&mut self, now: i64, report_write: Result<(), String>) -> (r: Result<Vec<u128>, String>)
        ensures
            final(self).report == (Report {
                status: Status::Canceled,
                completed_at: Some(now),
                ..old(self).report
            }),
            final(self).id == old(self).id,
            final(self).name == old(self).name,
            report_write is Ok ==> (r matches Ok(ids) && ids@ == job_ids(old(self).next_jobs@))
                && final(self).next_jobs@ == commanded_jobs(old(self).next_jobs@, Command::Cancel, now),
            report_write matches Err(w) ==> r == Err::<Vec<u128>, String>(w) && final(self).next_jobs
                == old(self).next_jobs,
    {
        self.report.status = Status::Canceled;
        self.report.completed_at = Some(now);
        match report_write {
            Ok(()) => Ok(self.command_children(Command::Cancel, now)),
            Err(w) => Err(w),
        }
    }
}

/// Turns a job of kind `name`, whose parameters hash to `hash`, into a job
/// with identity `id` and a fresh report, with nothing queued after it.
pub fn into_job(id: u128, name: JobName, hash: u64) -> (r: JobHolder)
    ensures
        r.job.id == id,
        r.job.name == name,
        r.job.hash == hash,
        is_fresh_report(r.job.report, id, name, None, None, Seq::empty()),
        r.next_jobs@.len() == 0,
{
    let b = ReportBuilder::new(id, name);
    assert(b.metadata@ =~= Seq::empty());
    JobHolder { job: QueuedJob { id, name, hash, report: b.build() }, next_jobs: Vec::new() }
}

/// Builds a job together with the jobs that must run after it.
#[derive(Debug)]
pub struct JobEnqueuer {
    pub id: u128,
    pub name: JobName,
    pub hash: u64,
    pub report_builder: ReportBuilder,
    pub next_jobs: Vec<QueuedJob>,
}

/// The action of the `order`-th job queued after a job whose action is `parent`.
pub open spec fn child_action(parent: Seq<char>, order: nat) -> Seq<char> {
    parent + "-"@ + decimal(order)
}

impl JobEnqueuer {
    /// Starts building job `id` of kind `name`, whose parameters hash to `hash`.
    pub fn new(id: u128, name: JobName, hash: u64) -> (r: Self)
        ensures
            r.id == id,
            r.name == name,
            r.hash == hash,
            r.report_builder.id == id,
            r.report_builder.name == name,
            r.report_builder.action is None,
            r.report_builder.parent_id is None,
            r.report_builder.metadata@.len() == 0,
            r.next_jobs@.len() == 0,
    {
        JobEnqueuer { id, name, hash, report_builder: ReportBuilder::new(id, name), next_jobs: Vec::new() }
    }

    /// Sets the action of the job.
    pub fn with_action(self, action: String) -> (r: Self)
        ensures
            r.report_builder.action == Some(action),
            r.report_builder.id == self.report_builder.id,
            r.report_builder.name == self.report_builder.name,
            r.report_builder.parent_id == self.report_builder.parent_id,
            r.report_builder.metadata == self.report_builder.metadata,
            r.id == self.id,
            r.name == self.name,
            r.hash == self.hash,
            r.next_jobs == self.next_jobs,
    {
        let JobEnqueuer { id, name, hash, report_builder, next_jobs } = self;
        JobEnqueuer { id, name, hash, report_builder: report_builder.with_action(action), next_jobs }
    }

    /// Sets the parent of the job.
    pub fn with_parent_id(self, parent_id: u128) -> (r: Self)
        ensures
            r.report_builder.parent_id == Some(parent_id),
            r.report_builder.id == self.report_builder.id,
            r.report_builder.name == self.report_builder.name,
            r.report_builder.action == self.report_builder.action,
            r.report_builder.metadata == self.report_builder.metadata,
            r.id == self.id,
            r.name == self.name,
            r.hash == self.hash,
            r.next_jobs == self.next_jobs,
    {
        let JobEnqueuer { id, name, hash, report_builder, next_jobs } = self;
        JobEnqueuer { id, name, hash, report_builder: report_builder.with_parent_id(parent_id), next_jobs }
    }

    /// Adds input metadata to the job's report.
    pub fn with_metadata(self, metadata: ReportInputMetadata) -> (r: Self)
        ensures
            r.report_builder.metadata@ == self.report_builder.metadata@.push(
                ReportMetadata::Input(metadata),
            ),
            r.report_builder.id == self.report_builder.id,
            r.report_builder.name == self.report_builder.name,
            r.report_builder.action == self.report_builder.action,
            r.report_builder.parent_id == self.report_builder.parent_id,
            r.id == self.id,
            r.name == self.name,
            r.hash == self.hash,
            r.next_jobs == self.next_jobs,
    {
        let JobEnqueuer { id, name, hash, report_builder, next_jobs } = self;
        JobEnqueuer { id, name, hash, report_builder: report_builder.with_metadata(metadata), next_jobs }
    }

    /// Queues job `next_id` of kind `next_name` (parameters hashing to
    /// `next_hash`) after the jobs already queued; its parent is this job and,
    /// when this job has an action, its action is that action followed by `-`
    /// and its position (counted from 1).
    pub fn enqueue_next(self, next_id: u128, next_name: JobName, next_hash: u64) -> (r: Self)
        requires
            self.next_jobs@.len() < u64::MAX,
        ensures
            r.id == self.id,
            r.name == self.name,
            r.hash == self.hash,
            r.report_builder == self.report_builder,
            r.next_jobs@.len() == self.next_jobs@.len() + 1,
            r.next_jobs@.subrange(0, self.next_jobs@.len() as int) == self.next_jobs@,
            ({
                let added = r.next_jobs@.last();
                &&& added.id == next_id
                &&& added.name == next_name
                &&& added.hash == next_hash
                &&& is_fresh_report(
                    added.report,
                    next_id,
                    next_name,
                    added.report.action,
                    Some(self.id),
                    Seq::empty(),
                )
                &&& (self.report_builder.action is None <==> added.report.action is None)
                &&& (self.report_builder.action matches Some(a) ==> added.report.action.unwrap()@
                    == child_action(a@, (self.next_jobs@.len() + 1) as nat))
            }),
    {
        let order: u64 = (self.next_jobs.len() as u64) + 1;
        let mut child = ReportBuilder::new(next_id, next_name).with_parent_id(self.id);
        assert(child.metadata@ =~= Seq::empty());
        match &self.report_builder.action {
            Some(parent_action) => {
                let mut action = parent_action.clone();
                action.append("-");
                push_decimal(&mut action, order as u128);
                child = child.with_action(action);
            },
            None => {},
        }
        let job = QueuedJob { id: next_id, name: next_name, hash: next_hash, report: child.build() };
        let mut s = self;
        s.next_jobs.push(job);
        assert(s.next_jobs@.subrange(0, s.next_jobs@.len() - 1) =~= self.next_jobs@);
        s
    }

    /// The job with its report, followed by the queued jobs.
    pub fn build(self) -> (r: JobHolder)
        ensures
            r.job.id == self.id,
            r.job.name == self.name,
            r.job.hash == self.hash,
            is_fresh_report(
                r.job.report,
                self.report_builder.id,
                self.report_builder.name,
                self.report_builder.action,
                self.report_builder.parent_id,
                self.report_builder.metadata@,
            ),
            r.next_jobs == self.next_jobs,
    {
        let JobEnqueuer { id, name, hash, report_builder, next_jobs } = self;
        JobHolder { job: QueuedJob { id, name, hash, report: report_builder.build() }, next_jobs }
    }
}

} // verus!
