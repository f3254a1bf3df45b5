//! The job system's bookkeeping: which jobs run, which parameter hashes are
//! taken, which (kind, location) pairs are busy, and what happens to a job and
//! the jobs queued after it when it returns.
use vstd::prelude::*;

use std::collections::{HashMap, HashSet};

use crate::job_handle::{
    commanded_jobs, job_ids, uncreated_ids, JobHandle, JobHolder, Persist, QueuedJob, StartPlan,
    started_report,
};
use crate::job_report::completed_report_matches;
use crate::job_report::{Command, JobName, JobOutput, JobReturn, Report, Status};

verus! {

broadcast use vstd::std_specs::hash::group_hash_axioms;

/// Errors of the job system.
#[derive(Debug)]
pub enum JobSystemError {
    NotFound(u128),
    AlreadyRunning { new_id: u128, already_running_id: u128, job_name: JobName },
    Canceled(u128),
    Job(String),
    /// Writing a report to the database failed.
    Report(String),
}

/// How a job's task ended.
#[derive(Debug)]
pub enum ReturnStatus {
    Completed(JobReturn),
    /// The job was stopped by a shutdown and serialized itself, if it can be resumed.
    Shutdown(Result<Option<Vec<u8>>, String>),
    Canceled,
}

/// A job saved to disk at shutdown to be resumed later.
#[derive(Debug)]
pub struct StoredJob {
    pub id: u128,
    pub name: JobName,
    pub serialized_job: Vec<u8>,
}

/// A saved job with the jobs that were queued after it.
#[derive(Debug)]
pub struct StoredJobEntry {
    pub location_id: i32,
    pub root_job: StoredJob,
    pub next_jobs: Vec<StoredJob>,
}

/// The (kind, location) pairs of running jobs.
#[derive(Debug)]
pub struct RunningSet {
    indexer: HashSet<i32>,
    file_identifier: HashSet<i32>,
    media_processor: HashSet<i32>,
}

impl View for RunningSet {
    type V = Set<(JobName, i32)>;

    closed spec fn view(&self) -> Set<(JobName, i32)> {
        Set::new(
            |p: (JobName, i32)|
                match p.0 {
                    JobName::Indexer => self.indexer@.contains(p.1),
                    JobName::FileIdentifier => self.file_identifier@.contains(p.1),
                    JobName::MediaProcessor => self.media_processor@.contains(p.1),
                },
        )
    }
}

impl RunningSet {
    /// The empty set.
    pub fn new() -> (r: Self)
        ensures
            r@ == Set::<(JobName, i32)>::empty(),
    {
        let r = RunningSet {
            indexer: HashSet::new(),
            file_identifier: HashSet::new(),
            media_processor: HashSet::new(),
        };
        assert(r@ =~= Set::<(JobName, i32)>::empty());
        r
    }

    /// Whether the pair is in the set.
    pub fn contains(&self, name: JobName, location_id: i32) -> (r: bool)
        ensures
            r == self@.contains((name, location_id)),
    {
        match name {
            JobName::Indexer => self.indexer.contains(&location_id),
            JobName::FileIdentifier => self.file_identifier.contains(&location_id),
            JobName::MediaProcessor => self.media_processor.contains(&location_id),
        }
    }

    /// Adds the pair.
    pub fn insert(&mut self, name: JobName, location_id: i32)
        ensures
            final(self)@ == old(self)@.insert((name, location_id)),
    {
        match name {
            JobName::Indexer => { self.indexer.insert(location_id); },
            JobName::FileIdentifier => { self.file_identifier.insert(location_id); },
            JobName::MediaProcessor => { self.media_processor.insert(location_id); },
        }
        assert(self@ =~= old(self)@.insert((name, location_id)));
    }

    /// Removes the pair; the result says whether it was there.
    pub fn remove(&mut self, name: JobName, location_id: i32) -> (r: bool)
        ensures
            final(self)@ == old(self)@.remove((name, location_id)),
            r == old(self)@.contains((name, location_id)),
    {
        let r = match name {
            JobName::Indexer => self.indexer.remove(&location_id),
            JobName::FileIdentifier => self.file_identifier.remove(&location_id),
            JobName::MediaProcessor => self.media_processor.remove(&location_id),
        };
        assert(self@ =~= old(self)@.remove((name, location_id)));
        r
    }
}

/// The abstract state of the job system runner.
pub struct RunnerView {
    pub handles: Map<u128, JobHandle>,
    pub job_hashes: Map<u64, u128>,
    pub job_hashes_by_id: Map<u128, u64>,
    pub running_by_id: Map<u128, (JobName, i32)>,
    pub running: Set<(JobName, i32)>,
    pub to_store: Map<u128, Vec<StoredJobEntry>>,
}

/// The job system runner's state.
pub struct JobSystemRunner {
    handles: HashMap<u128, JobHandle>,
    job_hashes: HashMap<u64, u128>,
    job_hashes_by_id: HashMap<u128, u64>,
    running_jobs_by_job_id: HashMap<u128, (JobName, i32)>,
    running_jobs_set: RunningSet,
    jobs_to_store_by_ctx_id: HashMap<u128, Vec<StoredJobEntry>>,
}

impl View for JobSystemRunner {
    type V = RunnerView;

    closed spec fn view(&self) -> RunnerView {
        RunnerView {
            handles: self.handles@,
            job_hashes: self.job_hashes@,
            job_hashes_by_id: self.job_hashes_by_id@,
            running_by_id: self.running_jobs_by_job_id@,
            running: self.running_jobs_set@,
            to_store: self.jobs_to_store_by_ctx_id@,
        }
    }
}

/// The runner's tables agree: the hash of every running job maps back to it,
/// every taken hash belongs to a running job, and every running job has a
/// handle and a (kind, location) pair.
pub open spec fn runner_wf(v: RunnerView) -> bool {
    &&& forall|h: u64| #[trigger] v.job_hashes.contains_key(h) ==> {
        &&& v.job_hashes_by_id.contains_key(v.job_hashes[h])
        &&& v.job_hashes_by_id[v.job_hashes[h]] == h
    }
    &&& forall|id: u128| #[trigger] v.job_hashes_by_id.contains_key(id) ==> {
        &&& v.job_hashes.contains_key(v.job_hashes_by_id[id])
        &&& v.job_hashes[v.job_hashes_by_id[id]] == id
    }
    &&& v.job_hashes_by_id.dom() == v.running_by_id.dom()
    &&& v.job_hashes_by_id.dom() == v.handles.dom()
    &&& forall|id: u128| #[trigger] v.handles.contains_key(id) ==> v.handles[id].id == id
}

/// The view after job `id` of kind `name` at `location_id`, hashing to
/// `hash`, starts running with `handle` (a hash the same identity held
/// before is released).
pub open spec fn registered(v: RunnerView, id: u128, name: JobName, location_id: i32, hash: u64, handle: JobHandle) -> RunnerView {
    RunnerView {
        handles: v.handles.insert(id, handle),
        job_hashes: if v.job_hashes_by_id.contains_key(id) {
            v.job_hashes.remove(v.job_hashes_by_id[id]).insert(hash, id)
        } else {
            v.job_hashes.insert(hash, id)
        },
        job_hashes_by_id: v.job_hashes_by_id.insert(id, hash),
        running_by_id: v.running_by_id.insert(id, (name, location_id)),
        running: v.running.insert((name, location_id)),
        to_store: v.to_store,
    }
}

/// The view after running job `id` stopped.
pub open spec fn retired(v: RunnerView, id: u128) -> RunnerView {
    RunnerView {
        handles: v.handles.remove(id),
        job_hashes: v.job_hashes.remove(v.job_hashes_by_id[id]),
        job_hashes_by_id: v.job_hashes_by_id.remove(id),
        running_by_id: v.running_by_id.remove(id),
        running: v.running.remove(v.running_by_id[id]),
        to_store: v.to_store,
    }
}

/// Whether job `id` runs and can be stopped: its (kind, location) pair is
/// still marked busy (it is not when another job of the same kind at the
/// same location stopped before it).
pub open spec fn can_retire(v: RunnerView, id: u128) -> bool {
    &&& v.running_by_id.contains_key(id)
    &&& v.running.contains(v.running_by_id[id])
}

/// Whether some job of one of `names` runs at `location_id`.
pub open spec fn any_running(running: Set<(JobName, i32)>, names: Seq<JobName>, location_id: i32) -> bool {
    exists|i: int| 0 <= i < names.len() && running.contains((#[trigger] names[i], location_id))
}

/// What stopping a job asks of the caller besides the job's output.
#[derive(Debug)]
pub struct ReturnEffects {
    /// The output to publish, if any.
    pub output: Option<Result<JobOutput, JobSystemError>>,
    /// The next job that was dispatched, and how its report and its queued jobs' reports must be persisted.
    pub dispatched: Option<(u128, StartPlan)>,
    /// The reports, of the stopped job's queued jobs, that must be written back.
    pub reports_to_update: Vec<u128>,
    /// Whether the stopped job's own report must be written back.
    pub update_report: bool,
    /// The stopped job's handle, with its report and its queued jobs' reports
    /// as they must be written back.
    pub handle: JobHandle,
}

/// How the report of a job that starts must be persisted.
pub open spec fn persist_of(r: Report) -> Persist {
    if r.created_at is None {
        Persist::Create
    } else {
        Persist::Update
    }
}

/// A handle after its job started at `now`.
pub open spec fn started_handle(h: JobHandle, now: i64) -> JobHandle {
    JobHandle { report: started_report(h.report, now), ..h }
}

impl JobSystemRunner {
    /// A runner with no jobs.
    pub fn new() -> (r: Self)
        ensures
            runner_wf(r@),
            r@.handles == Map::<u128, JobHandle>::empty(),
            r@.job_hashes == Map::<u64, u128>::empty(),
            r@.job_hashes_by_id == Map::<u128, u64>::empty(),
            r@.running_by_id == Map::<u128, (JobName, i32)>::empty(),
            r@.running == Set::<(JobName, i32)>::empty(),
            r@.to_store == Map::<u128, Vec<StoredJobEntry>>::empty(),
    {
        JobSystemRunner {
            handles: HashMap::new(),
            job_hashes: HashMap::new(),
            job_hashes_by_id: HashMap::new(),
            running_jobs_by_job_id: HashMap::new(),
            running_jobs_set: RunningSet::new(),
            jobs_to_store_by_ctx_id: HashMap::new(),
        }
    }

    /// Whether no job runs.
    pub fn is_empty(&self) -> (r: bool)
        requires
            runner_wf(self@),
        ensures
            r == (self@.handles.dom().len() == 0 && self@.job_hashes.dom().len() == 0
                && self@.job_hashes_by_id.dom().len() == 0),
    {
        self.handles.is_empty() && self.job_hashes.is_empty() && self.job_hashes_by_id.is_empty()
    }

    /// The number of running jobs.
    pub fn total_jobs(&self) -> (r: usize)
        ensures
            r == self@.handles.len(),
    {
        self.handles.len()
    }

    /// Whether some job of one of `job_names` runs at `location_id`.
    pub fn check_if_job_are_running(&self, job_names: Vec<JobName>, location_id: i32) -> (r: bool)
        ensures
            r == any_running(self@.running, job_names@, location_id),
    {
        let mut i: usize = 0;
        while i < job_names.len()
            invariant
                i <= job_names.len(),
                forall|j: int|
                    0 <= j < i ==> !self@.running.contains((#[trigger] job_names@[j], location_id)),
            decreases job_names.len() - i,
        {
            if self.running_jobs_set.contains(job_names[i], location_id) {
                return true;
            }
            i = i + 1;
        }
        false
    }

    /// Whether job `id` runs and can be stopped (see [`can_retire`]).
    pub fn can_retire(&self, id: u128) -> (r: bool)
        ensures
            r == can_retire(self@, id),
    {
        match self.running_jobs_by_job_id.get(&id) {
            Some(pair) => self.running_jobs_set.contains(pair.0, pair.1),
            None => false,
        }
    }

    /// The number of jobs queued after running job `id`, if it runs.
    pub fn queued_after(&self, id: u128) -> (r: Option<usize>)
        ensures
            r == (if self@.handles.contains_key(id) {
                Some(self@.handles[id].next_jobs@.len() as usize)
            } else {
                None
            }),
    {
        match self.handles.get(&id) {
            Some(h) => Some(h.next_jobs.len()),
            None => None,
        }
    }

    /// Registers a job that starts running at `now` with `handle` at
    /// `location_id`; refused when a running job has the same parameter hash.
    /// The job's report is marked running, and the plan says how it and its
    /// queued jobs' reports must be persisted.
    pub fn new_job(&mut self, location_id: i32, hash: u64, handle: JobHandle, now: i64) -> (r: Result<
        StartPlan,
        JobSystemError,
    >)
        requires
            runner_wf(old(self)@),
        ensures
            runner_wf(final(self)@),
            old(self)@.job_hashes.contains_key(hash) <==> r is Err,
            r matches Err(e) ==> e == (JobSystemError::AlreadyRunning {
                new_id: handle.id,
                already_running_id: old(self)@.job_hashes[hash],
                job_name: handle.name,
            }),
            r is Err ==> final(self)@ == old(self)@,
            r is Ok ==> final(self)@ == registered(
                old(self)@,
                handle.id,
                handle.name,
                location_id,
                hash,
                started_handle(handle, now),
            ),
            r matches Ok(plan) ==> plan.root == persist_of(handle.report)
                && plan.children_to_create@ == uncreated_ids(handle.next_jobs@),
    {
        let id = handle.id;
        let name = handle.name;
        match self.job_hashes.get(&hash) {
            Some(already) => {
                return Err(
                    JobSystemError::AlreadyRunning {
                        new_id: id,
                        already_running_id: *already,
                        job_name: name,
                    },
                );
            },
            None => {},
        }
        let mut handle = handle;
        let ghost h0 = handle;
        let plan = handle.register_start(now);
        proof {
            assert(handle == started_handle(h0, now));
        }
        self.register(id, name, location_id, hash, handle);
        Ok(plan)
    }

    fn register(&mut self, id: u128, name: JobName, location_id: i32, hash: u64, handle: JobHandle)
        requires
            runner_wf(old(self)@),
            !old(self)@.job_hashes.contains_key(hash),
            handle.id == id,
        ensures
            runner_wf(final(self)@),
            final(self)@ == registered(old(self)@, id, name, location_id, hash, handle),
    {
        let ghost v0 = self@;
        // A job with this identity may already be registered under another hash; its old hash is dropped.
        match self.job_hashes_by_id.remove(&id) {
            Some(old_hash) => {
                self.job_hashes.remove(&old_hash);
            },
            None => {},
        }
        self.running_jobs_by_job_id.insert(id, (name, location_id));
        self.running_jobs_set.insert(name, location_id);
        self.job_hashes.insert(hash, id);
        self.job_hashes_by_id.insert(id, hash);
        self.handles.insert(id, handle);
        proof {
            let v = self@;
            let want = registered(v0, id, name, location_id, hash, handle);
            assert(v.job_hashes_by_id =~= want.job_hashes_by_id);
            assert(v.handles =~= want.handles);
            assert(v.running_by_id =~= want.running_by_id);
            assert(v.running =~= want.running);
            assert(v.job_hashes =~= want.job_hashes);
            assert(v.job_hashes_by_id.dom() =~= v.running_by_id.dom());
            assert(v.job_hashes_by_id.dom() =~= v.handles.dom());
        }
    }

    /// Removes running job `id` from the tables and hands back its handle and
    /// its (kind, location) pair.
    pub fn retire(&mut self, id: u128) -> (r: (JobHandle, (JobName, i32)))
        requires
            runner_wf(old(self)@),
            can_retire(old(self)@, id),
        ensures
            runner_wf(final(self)@),
            final(self)@ == retired(old(self)@, id),
            r.0 == old(self)@.handles[id],
            r.1 == old(self)@.running_by_id[id],
    {
        let ghost v0 = self@;
        let hash = self.job_hashes_by_id.remove(&id).unwrap();
        let pair = self.running_jobs_by_job_id.remove(&id).unwrap();
        let was_there = self.running_jobs_set.remove(pair.0, pair.1);
        let was_hashed = self.job_hashes.remove(&hash);
        let handle = self.handles.remove(&id).unwrap();
        proof {
            let v = self@;
            let want = retired(v0, id);
            assert(v.job_hashes =~= want.job_hashes);
            assert(v.job_hashes_by_id =~= want.job_hashes_by_id);
            assert(v.handles =~= want.handles);
            assert(v.running_by_id =~= want.running_by_id);
            assert(v.running =~= want.running);
            assert(v.job_hashes_by_id.dom() =~= v.running_by_id.dom());
            assert(v.job_hashes_by_id.dom() =~= v.handles.dom());
            assert forall|h: u64| #[trigger] v.job_hashes.contains_key(h) implies {
                &&& v.job_hashes_by_id.contains_key(v.job_hashes[h])
                &&& v.job_hashes_by_id[v.job_hashes[h]] == h
            } by {
                assert(v0.job_hashes.contains_key(h));
                assert(v0.job_hashes[h] != id);
            }
        }
        (handle, pair)
    }

    /// Sends `command` to running job `id`; `delivered` says whether the job
    /// was still there to receive it.
    pub fn process_command(&mut self, id: u128, command: Command, delivered: bool, now: i64) -> (r:
        Result<Vec<u128>, JobSystemError>)
        requires
            runner_wf(old(self)@),
        ensures
            runner_wf(final(self)@),
            !old(self)@.handles.contains_key(id) ==> r == Err::<Vec<u128>, JobSystemError>(
                JobSystemError::NotFound(id),
            ) && final(self)@ == old(self)@,
            old(self)@.handles.contains_key(id) ==> r is Ok && {
                let h = old(self)@.handles[id];
                &&& final(self)@.handles.contains_key(id)
                &&& final(self)@.handles[id].report == h.report
                &&& final(self)@.handles[id].name == h.name
                &&& (delivered ==> final(self)@.handles[id].next_jobs@ == commanded_jobs(
                    h.next_jobs@,
                    command,
                    now,
                ))
                &&& (!delivered ==> final(self)@.handles[id].next_jobs == h.next_jobs)
                &&& final(self)@.handles.remove(id) == old(self)@.handles.remove(id)
                &&& final(self)@.job_hashes == old(self)@.job_hashes
                &&& final(self)@.job_hashes_by_id == old(self)@.job_hashes_by_id
                &&& final(self)@.running_by_id == old(self)@.running_by_id
                &&& final(self)@.running == old(self)@.running
                &&& final(self)@.to_store == old(self)@.to_store
            },
    {
        match self.handles.remove(&id) {
            Some(mut handle) => {
                let ghost v0 = old(self)@;
                let ids = handle.send_command(command, delivered, now);
                self.handles.insert(id, handle);
                proof {
                    assert(self@.handles.dom() =~= v0.handles.dom());
                    assert(self@.handles.remove(id) =~= v0.handles.remove(id));
                }
                Ok(ids)
            },
            None => {
                proof {
                    assert(self.handles@ =~= old(self).handles@);
                }
                Err(JobSystemError::NotFound(id))
            },
        }
    }

    /// Dispatches the first job queued after `handle`'s job, at the same
    /// location, unless a running job has its hash; the dispatched job takes
    /// over the rest of the queue.
    fn try_dispatch_next_job(&mut self, handle: &mut JobHandle, location_id: i32, now: i64) -> (r:
        Option<(u128, StartPlan)>)
        requires
            runner_wf(old(self)@),
        ensures
            runner_wf(final(self)@),
            old(handle).next_jobs@.len() == 0 ==> r is None && final(self)@ == old(self)@
                && *final(handle) == *old(handle),
            old(handle).next_jobs@.len() > 0 ==> {
                let next = old(handle).next_jobs@[0];
                let rest = old(handle).next_jobs@.subrange(1, old(handle).next_jobs@.len() as int);
                &&& final(handle).id == old(handle).id
                &&& final(handle).name == old(handle).name
                &&& final(handle).report == old(handle).report
                &&& (old(self)@.job_hashes.contains_key(next.hash) ==> {
                    &&& r is None
                    &&& final(self)@ == old(self)@
                    &&& final(handle).next_jobs@ == rest
                })
                &&& (!old(self)@.job_hashes.contains_key(next.hash) ==> {
                    &&& r is Some
                    &&& r.unwrap().0 == next.id
                    &&& r.unwrap().1.root == persist_of(next.report)
                    &&& r.unwrap().1.children_to_create@.len() == 0
                    &&& final(handle).next_jobs@.len() == 0
                    &&& exists|nh: JobHandle| {
                        &&& final(self)@ == #[trigger] registered(
                            old(self)@,
                            next.id,
                            next.name,
                            location_id,
                            next.hash,
                            nh,
                        )
                        &&& nh.id == next.id
                        &&& nh.report == started_report(next.report, now)
                        &&& nh.next_jobs@ == rest
                    }
                })
            },
    {
        if handle.next_jobs.len() == 0 {
            return None;
        }
        let next = handle.next_jobs.remove(0);
        let next_id = next.id;
        let next_hash = next.hash;
        let next_name = next.name;
        if self.job_hashes.contains_key(&next_hash) {
            return None;
        }
        let mut next_handle = JobHandle::dispatch(JobHolder { job: next, next_jobs: Vec::new() });
        let plan = next_handle.register_start(now);
        let mut rest: Vec<QueuedJob> = Vec::new();
        std::mem::swap(&mut rest, &mut handle.next_jobs);
        next_handle.next_jobs = rest;
        let ghost nh = next_handle;
        self.register(next_id, next_name, location_id, next_hash, next_handle);
        Some((next_id, plan))
    }

    /// Handles the return of running job `id`: its tables entries go away and,
    /// by how it ended, the next job is dispatched and the output produced, or
    /// its state is kept to be saved, or it is marked canceled or failed.
    /// `serialized_next` holds, for a job stopped by a shutdown, the
    /// serialization of each job queued after it, in order; `report_write` is
    /// the outcome of writing the stopped job's report, when it has one to write.
    pub fn process_return_status(
        &mut self,
        id: u128,
        status: Result<ReturnStatus, String>,
        serialized_next: Vec<Result<Option<Vec<u8>>, ()>>,
        ctx_id: u128,
        report_write: Result<(), String>,
        now: i64,
    ) -> (r: ReturnEffects)
        requires
            runner_wf(old(self)@),
            can_retire(old(self)@, id),
            status matches Ok(ReturnStatus::Shutdown(Ok(Some(_)))) ==> serialized_next@.len()
                == old(self)@.handles[id].next_jobs@.len(),
        ensures
            runner_wf(final(self)@),
            return_effects(
                old(self)@,
                final(self)@,
                id,
                status,
                serialized_next@,
                ctx_id,
                report_write,
                now,
                r,
            ),
    {
        let ghost v0 = self@;
        let (mut handle, pair) = self.retire(id);
        let location_id = pair.1;
        match status {
            Ok(ReturnStatus::Completed(job_return)) => {
                let ghost v1 = self@;
                let ghost h1 = handle;
                let dispatched = self.try_dispatch_next_job(&mut handle, location_id, now);
                let ghost h2 = handle;
                let out = handle.complete_job(job_return, now);
                let output = match report_write {
                    Ok(()) => Ok(out),
                    Err(w) => Err(JobSystemError::Report(w)),
                };
                proof {
                    if h1.next_jobs@.len() > 0 && !v1.job_hashes.contains_key(h1.next_jobs@[0].hash) {
                        let next = h1.next_jobs@[0];
                        let rest = h1.next_jobs@.subrange(1, h1.next_jobs@.len() as int);
                        let nh = choose|nh: JobHandle| {
                            &&& self@ == #[trigger] registered(v1, next.id, next.name, location_id, next.hash, nh)
                            &&& nh.id == next.id
                            &&& nh.report == started_report(next.report, now)
                            &&& nh.next_jobs@ == rest
                        };
                        assert(dispatch_effect(v1, self@, h1, h2, location_id, now, dispatched));
                    }
                }
                ReturnEffects {
                    output: Some(output),
                    dispatched,
                    reports_to_update: Vec::new(),
                    update_report: true,
                    handle,
                }
            },
            Ok(ReturnStatus::Shutdown(Ok(Some(serialized_job)))) => {
                let next = serialize_next_jobs_to_shutdown(&handle.next_jobs, serialized_next);
                match next {
                    Some(next_jobs) => {
                        let entry = StoredJobEntry {
                            location_id,
                            root_job: StoredJob { id, name: handle.report.name, serialized_job },
                            next_jobs,
                        };
                        let ghost store0 = self.jobs_to_store_by_ctx_id@;
                        let mut list = match self.jobs_to_store_by_ctx_id.remove(&ctx_id) {
                            Some(l) => l,
                            None => Vec::new(),
                        };
                        let ghost before = list@;
                        proof {
                            assert(before == (if store0.contains_key(ctx_id) {
                                store0[ctx_id]@
                            } else {
                                Seq::<StoredJobEntry>::empty()
                            }));
                        }
                        list.push(entry);
                        self.jobs_to_store_by_ctx_id.insert(ctx_id, list);
                        proof {
                            let st = self.jobs_to_store_by_ctx_id@;
                            assert(st.dom() =~= store0.dom().insert(ctx_id));
                            assert(st[ctx_id]@.subrange(0, before.len() as int) =~= before);
                        }
                    },
                    None => {},
                }
                ReturnEffects {
                    output: None,
                    dispatched: None,
                    reports_to_update: Vec::new(),
                    update_report: false,
                    handle,
                }
            },
            Ok(ReturnStatus::Shutdown(_)) => {
                ReturnEffects {
                    output: None,
                    dispatched: None,
                    reports_to_update: Vec::new(),
                    update_report: false,
                    handle,
                }
            },
            Ok(ReturnStatus::Canceled) => {
                let (output, ids) = match handle.cancel_job(now, report_write) {
                    Ok(ids) => (Err(JobSystemError::Canceled(id)), ids),
                    Err(w) => (Err(JobSystemError::Report(w)), Vec::new()),
                };
                ReturnEffects {
                    output: Some(output),
                    dispatched: None,
                    reports_to_update: ids,
                    update_report: true,
                    handle,
                }
            },
            Err(e) => {
                let msg = e.clone();
                let (output, ids) = match handle.failed_job(e, now, report_write) {
                    Ok(ids) => (Err(JobSystemError::Job(msg)), ids),
                    Err(w) => (Err(JobSystemError::Report(w)), Vec::new()),
                };
                ReturnEffects {
                    output: Some(output),
                    dispatched: None,
                    reports_to_update: ids,
                    update_report: true,
                    handle,
                }
            },
        }
    }

    /// The jobs to save to disk at shutdown, by library; only once no job runs.
    pub fn take_jobs_to_store(&mut self) -> (r: Option<HashMap<u128, Vec<StoredJobEntry>>>)
        requires
            old(self)@.handles.dom().len() == 0,
            old(self)@.job_hashes.dom().len() == 0,
            old(self)@.job_hashes_by_id.dom().len() == 0,
        ensures
            old(self)@.to_store.dom().len() == 0 ==> r is None,
            old(self)@.to_store.dom().len() != 0 ==> (r matches Some(m) && m@ == old(self)@.to_store),
            final(self)@.to_store == Map::<u128, Vec<StoredJobEntry>>::empty(),
    {
        if self.jobs_to_store_by_ctx_id.is_empty() {
            proof {
                assert(self.jobs_to_store_by_ctx_id@ =~= Map::<u128, Vec<StoredJobEntry>>::empty());
            }
            return None;
        }
        let mut m: HashMap<u128, Vec<StoredJobEntry>> = HashMap::new();
        std::mem::swap(&mut m, &mut self.jobs_to_store_by_ctx_id);
        Some(m)
    }
}

/// What dispatching the job queued first after `h1` did: nothing when the
/// queue was empty; when its hash is taken, the job is dropped and the rest
/// of the queue stays with `h2`; otherwise it runs (its report started at
/// `now`) with the rest of the queue after it.
pub open spec fn dispatch_effect(
    v1: RunnerView,
    v2: RunnerView,
    h1: JobHandle,
    h2: JobHandle,
    location_id: i32,
    now: i64,
    dispatched: Option<(u128, StartPlan)>,
) -> bool {
    if h1.next_jobs@.len() == 0 {
        &&& dispatched is None
        &&& v2 == v1
        &&& h2.next_jobs@.len() == 0
    } else {
        let next = h1.next_jobs@[0];
        let rest = h1.next_jobs@.subrange(1, h1.next_jobs@.len() as int);
        if v1.job_hashes.contains_key(next.hash) {
            &&& dispatched is None
            &&& v2 == v1
            &&& h2.next_jobs@ == rest
        } else {
            &&& (dispatched matches Some((nid, plan)) && nid == next.id && plan.root == persist_of(
                next.report,
            ) && plan.children_to_create@.len() == 0)
            &&& h2.next_jobs@.len() == 0
            &&& exists|nh: JobHandle|
                {
                    &&& v2 == #[trigger] registered(
                        v1,
                        next.id,
                        next.name,
                        location_id,
                        next.hash,
                        nh,
                    )
                    &&& nh.id == next.id
                    &&& nh.report == started_report(next.report, now)
                    &&& nh.next_jobs@ == rest
                }
        }
    }
}

/// The store of jobs to save after the job `id` of `v`, stopped by a
/// shutdown with `bytes` and its queued jobs serialized as `serialized`,
/// was added to the list of library `ctx_id` (unless one of its queued jobs
/// failed to serialize).
pub open spec fn stored_after_shutdown(
    v: RunnerView,
    store: Map<u128, Vec<StoredJobEntry>>,
    id: u128,
    bytes: Vec<u8>,
    serialized: Seq<Result<Option<Vec<u8>>, ()>>,
    ctx_id: u128,
) -> bool {
    let h = v.handles[id];
    match stored_next(h.next_jobs@, serialized) {
        None => store == v.to_store,
        Some(ns) => {
            let before = if v.to_store.contains_key(ctx_id) {
                v.to_store[ctx_id]@
            } else {
                Seq::empty()
            };
            &&& store.dom() == v.to_store.dom().insert(ctx_id)
            &&& forall|k: u128| k != ctx_id && #[trigger] v.to_store.contains_key(k) ==> store[k] == v.to_store[k]
            &&& store[ctx_id]@.len() == before.len() + 1
            &&& store[ctx_id]@.subrange(0, before.len() as int) == before
            &&& store[ctx_id]@.last().location_id == v.running_by_id[id].1
            &&& store[ctx_id]@.last().root_job == (StoredJob { id, name: h.report.name, serialized_job: bytes })
            &&& store[ctx_id]@.last().next_jobs@ == ns
        },
    }
}

/// What processing the return `status` of running job `id` does, from the
/// runner's view `v` to `v2`, with effects `r`.
pub open spec fn return_effects(
    v: RunnerView,
    v2: RunnerView,
    id: u128,
    status: Result<ReturnStatus, String>,
    serialized: Seq<Result<Option<Vec<u8>>, ()>>,
    ctx_id: u128,
    report_write: Result<(), String>,
    now: i64,
    r: ReturnEffects,
) -> bool {
    let h = v.handles[id];
    let v1 = retired(v, id);
    &&& r.handle.id == h.id
    &&& r.handle.name == h.name
    &&& match status {
        Ok(ReturnStatus::Completed(job_return)) => {
            &&& completed_report_matches(h.report, r.handle.report, job_return, now)
            &&& r.update_report
            &&& r.reports_to_update@.len() == 0
            &&& dispatch_effect(v1, v2, h, r.handle, v.running_by_id[id].1, now, r.dispatched)
            &&& (report_write is Ok ==> (r.output matches Some(Ok(out)) && out.id == h.report.id
                && out.status == r.handle.report.status && out.job_name == r.handle.report.name
                && out.metadata@ == r.handle.report.metadata@ && out.data == job_return.data
                && out.non_critical_errors == job_return.non_critical_errors))
            &&& (report_write matches Err(w) ==> (r.output matches Some(Err(JobSystemError::Report(m)))
                && m == w))
        },
        Ok(ReturnStatus::Shutdown(Ok(Some(bytes)))) => {
            &&& r.output is None
            &&& !r.update_report
            &&& r.dispatched is None
            &&& r.handle == h
            &&& v2.handles == v1.handles
            &&& v2.job_hashes == v1.job_hashes
            &&& v2.job_hashes_by_id == v1.job_hashes_by_id
            &&& v2.running_by_id == v1.running_by_id
            &&& v2.running == v1.running
            &&& stored_after_shutdown(v, v2.to_store, id, bytes, serialized, ctx_id)
        },
        Ok(ReturnStatus::Shutdown(_)) => {
            &&& r.output is None
            &&& !r.update_report
            &&& r.dispatched is None
            &&& r.handle == h
            &&& v2 == v1
        },
        Ok(ReturnStatus::Canceled) => {
            &&& r.update_report
            &&& r.dispatched is None
            &&& v2 == v1
            &&& r.handle.report == (Report { status: Status::Canceled, completed_at: Some(now), ..h.report })
            &&& (report_write is Ok ==> {
                &&& (r.output matches Some(Err(JobSystemError::Canceled(cid))) && cid == id)
                &&& r.reports_to_update@ == job_ids(h.next_jobs@)
                &&& r.handle.next_jobs@ == commanded_jobs(h.next_jobs@, Command::Cancel, now)
            })
            &&& (report_write matches Err(w) ==> {
                &&& (r.output matches Some(Err(JobSystemError::Report(m))) && m == w)
                &&& r.reports_to_update@.len() == 0
                &&& r.handle.next_jobs == h.next_jobs
            })
        },
        Err(e) => {
            &&& r.update_report
            &&& r.dispatched is None
            &&& v2 == v1
            &&& r.handle.report == (Report {
                status: Status::Failed,
                critical_error: Some(e),
                completed_at: Some(now),
                ..h.report
            })
            &&& (report_write is Ok ==> {
                &&& (r.output matches Some(Err(JobSystemError::Job(msg))) && msg == e)
                &&& r.reports_to_update@ == job_ids(h.next_jobs@)
                &&& r.handle.next_jobs@ == commanded_jobs(h.next_jobs@, Command::Cancel, now)
            })
            &&& (report_write matches Err(w) ==> {
                &&& (r.output matches Some(Err(JobSystemError::Report(m))) && m == w)
                &&& r.reports_to_update@.len() == 0
                &&& r.handle.next_jobs == h.next_jobs
            })
        },
    }
}

/// The queued jobs paired with their serializations: `None` when one of them
/// failed to serialize, otherwise the ones that produced data, in order.
pub open spec fn stored_next(jobs: Seq<QueuedJob>, serialized: Seq<Result<Option<Vec<u8>>, ()>>) -> Option<Seq<StoredJob>>
    decreases jobs.len(),
{
    if jobs.len() == 0 || serialized.len() == 0 {
        Some(Seq::empty())
    } else {
        match stored_next(jobs.drop_last(), serialized.drop_last()) {
            None => None,
            Some(prefix) => match serialized.last() {
                Err(_) => None,
                Ok(None) => Some(prefix),
                Ok(Some(bytes)) => Some(
                    prefix.push(
                        StoredJob { id: jobs.last().id, name: jobs.last().name, serialized_job: bytes },
                    ),
                ),
            },
        }
    }
}

/// Pairs the jobs queued after a job stopped by a shutdown with their
/// serializations; `None` when one of them failed to serialize.
pub fn serialize_next_jobs_to_shutdown(
    next_jobs: &Vec<QueuedJob>,
    serialized: Vec<Result<Option<Vec<u8>>, ()>>,
) -> (r: Option<Vec<StoredJob>>)
    requires
        next_jobs@.len() == serialized@.len(),
    ensures
        r is None <==> stored_next(next_jobs@, serialized@) is None,
        r matches Some(v) ==> Some(v@) == stored_next(next_jobs@, serialized@),
        r is None <==> exists|i: int| 0 <= i < serialized@.len() && serialized@[i] is Err,
{
    let ghost all = serialized@;
    let n = next_jobs.len();
    let mut out: Vec<StoredJob> = Vec::new();
    let mut failed = false;
    let mut rest = serialized;
    let mut i: usize = 0;
    while rest.len() > 0
        invariant
            n == next_jobs@.len(),
            n == all.len(),
            i + rest@.len() == n,
            rest@ == all.subrange(i as int, n as int),
            failed ==> stored_next(next_jobs@.subrange(0, i as int), all.subrange(0, i as int)) is None,
            !failed ==> stored_next(next_jobs@.subrange(0, i as int), all.subrange(0, i as int))
                == Some(out@),
            failed <==> exists|j: int| 0 <= j < i && all[j] is Err,
        decreases rest@.len(),
    {
        let s = rest.remove(0);
        proof {
            let js = next_jobs@.subrange(0, i + 1);
            let ss = all.subrange(0, i + 1);
            assert(js.drop_last() =~= next_jobs@.subrange(0, i as int));
            assert(ss.drop_last() =~= all.subrange(0, i as int));
            assert(ss.last() == all[i as int]);
            assert(rest@ =~= all.subrange(i + 1, n as int));
        }
        match s {
            Err(_) => {
                failed = true;
            },
            Ok(None) => {},
            Ok(Some(bytes)) => {
                if !failed {
                    out.push(StoredJob { id: next_jobs[i].id, name: next_jobs[i].name, serialized_job: bytes });
                }
            },
        }
        i = i + 1;
    }
    proof {
        assert(next_jobs@.subrange(0, n as int) =~= next_jobs@);
        assert(all.subrange(0, n as int) =~= all);
    }
    if failed {
        None
    } else {
        Some(out)
    }
}

/// Starting a job whose hash, identity and (kind, location) pair are all
/// free, and then stopping it, leaves the runner's tables as they were.
pub proof fn lemma_register_then_retire_restores(
    v: RunnerView,
    id: u128,
    name: JobName,
    location_id: i32,
    hash: u64,
    handle: JobHandle,
)
    requires
        runner_wf(v),
        !v.job_hashes.contains_key(hash),
        !v.handles.contains_key(id),
        !v.running.contains((name, location_id)),
    ensures
        retired(registered(v, id, name, location_id, hash, handle), id) == v,
{
    let r = registered(v, id, name, location_id, hash, handle);
    let back = retired(r, id);
    assert(!v.job_hashes_by_id.contains_key(id));
    assert(back.handles =~= v.handles);
    assert(back.job_hashes =~= v.job_hashes);
    assert(back.job_hashes_by_id =~= v.job_hashes_by_id);
    assert(back.running_by_id =~= v.running_by_id);
    assert(back.running =~= v.running);
}

/// Once a job of kind `name` runs at `location_id`, asking whether any of a
/// list of kinds that holds `name` runs there answers yes.
pub proof fn lemma_registered_job_is_running(
    v: RunnerView,
    id: u128,
    name: JobName,
    location_id: i32,
    hash: u64,
    handle: JobHandle,
    names: Seq<JobName>,
)
    requires
        names.contains(name),
    ensures
        any_running(registered(v, id, name, location_id, hash, handle).running, names, location_id),
{
    let i = names.index_of(name);
    assert(registered(v, id, name, location_id, hash, handle).running.contains((names[i], location_id)));
}

/// While the tables agree, no two running jobs share a parameter hash: the
/// hash of a running job identifies it.
pub proof fn lemma_hash_identifies_running_job(v: RunnerView, a: u128, b: u128)
    requires
        runner_wf(v),
        v.job_hashes_by_id.contains_key(a),
        v.job_hashes_by_id.contains_key(b),
        v.job_hashes_by_id[a] == v.job_hashes_by_id[b],
    ensures
        a == b,
{
}


/// Every (kind, location) pair marked busy is the pair of a running job.
pub open spec fn busy_pairs_run(v: RunnerView) -> bool {
    forall|p: (JobName, i32)|
        #[trigger] v.running.contains(p) ==> exists|id: u128|
            v.running_by_id.contains_key(id) && #[trigger] v.running_by_id[id] == p
}

/// Starting a job with a fresh identity keeps every busy pair the pair of a
/// running job.
pub proof fn lemma_register_keeps_busy_pairs(
    v: RunnerView,
    id: u128,
    name: JobName,
    location_id: i32,
    hash: u64,
    handle: JobHandle,
)
    requires
        busy_pairs_run(v),
        !v.running_by_id.contains_key(id),
    ensures
        busy_pairs_run(registered(v, id, name, location_id, hash, handle)),
{
    let r = registered(v, id, name, location_id, hash, handle);
    assert forall|p: (JobName, i32)| #[trigger] r.running.contains(p) implies exists|j: u128|
        r.running_by_id.contains_key(j) && #[trigger] r.running_by_id[j] == p by {
        if p == (name, location_id) {
            assert(r.running_by_id[id] == p);
        } else {
            assert(v.running.contains(p));
            let w = choose|w: u128| v.running_by_id.contains_key(w) && #[trigger] v.running_by_id[w] == p;
            assert(w != id);
            assert(r.running_by_id[w] == p);
        }
    }
}

/// Stopping a job keeps every busy pair the pair of a running job.
pub proof fn lemma_retire_keeps_busy_pairs(v: RunnerView, id: u128)
    requires
        busy_pairs_run(v),
        v.running_by_id.contains_key(id),
    ensures
        busy_pairs_run(retired(v, id)),
{
    let r = retired(v, id);
    assert forall|p: (JobName, i32)| #[trigger] r.running.contains(p) implies exists|j: u128|
        r.running_by_id.contains_key(j) && #[trigger] r.running_by_id[j] == p by {
        assert(v.running.contains(p));
        let w = choose|w: u128| v.running_by_id.contains_key(w) && #[trigger] v.running_by_id[w] == p;
        assert(w != id);
        assert(r.running_by_id[w] == p);
    }
}


/// Where the runner's loop is: serving messages, draining the return
/// statuses left after a shutdown was asked, or stopped.
#[derive(Debug, Clone, Copy, PartialEq, Eq, Structural)]
pub enum RunnerPhase {
    Serving,
    Draining,
    Stopped,
}

/// What the runner's loop receives.
#[derive(Debug, Clone, Copy, PartialEq, Eq, Structural)]
pub enum RunnerEvent {
    /// A job's return status.
    ReturnStatus,
    NewJob,
    ResumeStoredJob,
    GetActiveReports,
    Command,
    CheckIfJobAreRunning,
    CleanMemoryTick,
    Shutdown,
    /// While draining: no return status is waiting.
    NoPendingStatus,
    /// The message streams ended.
    StreamsEnded,
}

/// What the runner's loop does with an event.
#[derive(Debug, Clone, Copy, PartialEq, Eq, Structural)]
pub enum RunnerAction {
    ProcessReturnStatus,
    /// Register a job (a resumed one with its stored tasks) and answer.
    RegisterJob { resumed: bool },
    SendActiveReports,
    ProcessCommand,
    CheckRunning,
    CleanMemory,
    /// Take the next waiting return status, if any.
    PollReturnStatus,
    /// Save the jobs to store and stop.
    SaveJobsAndStop,
    /// Stop without saving.
    Stop,
    /// The event is not read in this phase.
    Nothing,
}

/// The runner loop's next phase and action: while serving, each message
/// gets its action and a shutdown starts draining; while draining, the
/// waiting return statuses are processed until none waits and no job is
/// left, when the jobs are saved and the loop stops; the loop also stops
/// when its streams end.
pub open spec fn runner_transition(phase: RunnerPhase, event: RunnerEvent, runner_empty: bool) -> (
    RunnerPhase,
    RunnerAction,
) {
    match phase {
        RunnerPhase::Serving => match event {
            RunnerEvent::ReturnStatus => (RunnerPhase::Serving, RunnerAction::ProcessReturnStatus),
            RunnerEvent::NewJob => (RunnerPhase::Serving, RunnerAction::RegisterJob { resumed: false }),
            RunnerEvent::ResumeStoredJob => (RunnerPhase::Serving, RunnerAction::RegisterJob { resumed: true }),
            RunnerEvent::GetActiveReports => (RunnerPhase::Serving, RunnerAction::SendActiveReports),
            RunnerEvent::Command => (RunnerPhase::Serving, RunnerAction::ProcessCommand),
            RunnerEvent::CheckIfJobAreRunning => (RunnerPhase::Serving, RunnerAction::CheckRunning),
            RunnerEvent::CleanMemoryTick => (RunnerPhase::Serving, RunnerAction::CleanMemory),
            RunnerEvent::Shutdown => (RunnerPhase::Draining, RunnerAction::PollReturnStatus),
            RunnerEvent::NoPendingStatus => (RunnerPhase::Serving, RunnerAction::Nothing),
            RunnerEvent::StreamsEnded => (RunnerPhase::Stopped, RunnerAction::Stop),
        },
        RunnerPhase::Draining => match event {
            RunnerEvent::ReturnStatus => (RunnerPhase::Draining, RunnerAction::ProcessReturnStatus),
            RunnerEvent::NoPendingStatus => if runner_empty {
                (RunnerPhase::Stopped, RunnerAction::SaveJobsAndStop)
            } else {
                (RunnerPhase::Draining, RunnerAction::PollReturnStatus)
            },
            _ => (RunnerPhase::Draining, RunnerAction::Nothing),
        },
        RunnerPhase::Stopped => (RunnerPhase::Stopped, RunnerAction::Nothing),
    }
}

/// One step of the runner's loop.
pub fn runner_step(phase: RunnerPhase, event: RunnerEvent, runner_empty: bool) -> (r: (RunnerPhase, RunnerAction))
    ensures
        r == runner_transition(phase, event, runner_empty),
{
    match phase {
        RunnerPhase::Serving => match event {
            RunnerEvent::ReturnStatus => (RunnerPhase::Serving, RunnerAction::ProcessReturnStatus),
            RunnerEvent::NewJob => (RunnerPhase::Serving, RunnerAction::RegisterJob { resumed: false }),
            RunnerEvent::ResumeStoredJob => (RunnerPhase::Serving, RunnerAction::RegisterJob { resumed: true }),
            RunnerEvent::GetActiveReports => (RunnerPhase::Serving, RunnerAction::SendActiveReports),
            RunnerEvent::Command => (RunnerPhase::Serving, RunnerAction::ProcessCommand),
            RunnerEvent::CheckIfJobAreRunning => (RunnerPhase::Serving, RunnerAction::CheckRunning),
            RunnerEvent::CleanMemoryTick => (RunnerPhase::Serving, RunnerAction::CleanMemory),
            RunnerEvent::Shutdown => (RunnerPhase::Draining, RunnerAction::PollReturnStatus),
            RunnerEvent::NoPendingStatus => (RunnerPhase::Serving, RunnerAction::Nothing),
            RunnerEvent::StreamsEnded => (RunnerPhase::Stopped, RunnerAction::Stop),
        },
        RunnerPhase::Draining => match event {
            RunnerEvent::ReturnStatus => (RunnerPhase::Draining, RunnerAction::ProcessReturnStatus),
            RunnerEvent::NoPendingStatus => if runner_empty {
                (RunnerPhase::Stopped, RunnerAction::SaveJobsAndStop)
            } else {
                (RunnerPhase::Draining, RunnerAction::PollReturnStatus)
            },
            _ => (RunnerPhase::Draining, RunnerAction::Nothing),
        },
        RunnerPhase::Stopped => (RunnerPhase::Stopped, RunnerAction::Nothing),
    }
}

/// The jobs are saved only once, when a shutdown was asked and no job is
/// left; a stopped loop does nothing more.
pub proof fn lemma_saves_only_when_drained(phase: RunnerPhase, event: RunnerEvent, runner_empty: bool)
    ensures
        runner_transition(phase, event, runner_empty).1 == RunnerAction::SaveJobsAndStop ==> phase
            == RunnerPhase::Draining && runner_empty,
        runner_transition(phase, event, runner_empty).1 == RunnerAction::SaveJobsAndStop
            ==> runner_transition(phase, event, runner_empty).0 == RunnerPhase::Stopped,
        phase == RunnerPhase::Stopped ==> runner_transition(phase, event, runner_empty) == (
            RunnerPhase::Stopped,
            RunnerAction::Nothing,
        ),
{
}

} // verus!
