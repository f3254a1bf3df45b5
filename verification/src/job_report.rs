//! Job reports and the transitions a job's report goes through while it is
//! dispatched, paused, canceled, failed or completed.
//!
//! Times are milliseconds since the Unix epoch; they are handed in by the
//! caller, which reads the clock.
use vstd::prelude::*;

verus! {

/// The kinds of jobs the job system knows.
#[derive(Clone, Copy, Debug, PartialEq, Eq, Structural, Hash)]
pub enum JobName {
    Indexer,
    FileIdentifier,
    MediaProcessor,
}

/// The status of a job report.
#[derive(Clone, Copy, Debug, PartialEq, Eq, Structural)]
pub enum Status {
    Queued,
    Running,
    Completed,
    Canceled,
    Failed,
    Paused,
    CompletedWithErrors,
}

/// A command sent to a running job.
#[derive(Clone, Copy, Debug, PartialEq, Eq, Structural)]
pub enum Command {
    Pause,
    Resume,
    Cancel,
}

/// A progress update emitted by a job.
#[derive(Debug)]
pub enum ProgressUpdate {
    TaskCount(u64),
    CompletedTaskCount(u64),
    Message(String),
    Phase(String),
}

impl ProgressUpdate {
    /// A progress message.
    pub fn message(message: String) -> (r: Self)
        ensures
            r == ProgressUpdate::Message(message),
    {
        ProgressUpdate::Message(message)
    }

    /// A change of phase.
    pub fn phase(phase: String) -> (r: Self)
        ensures
            r == ProgressUpdate::Phase(phase),
    {
        ProgressUpdate::Phase(phase)
    }
}

/// An error that does not stop a job, reported at its end.
#[derive(Debug)]
pub enum NonCriticalError {
    FailedToExtractFileMetadata(String),
    FailedToExtractIsolatedFilePathData(String),
}

/// The text of a non critical error.
pub open spec fn non_critical_error_text(e: NonCriticalError) -> Seq<char> {
    match e {
        NonCriticalError::FailedToExtractFileMetadata(s) => "failed to extract file metadata: "@ + s@,
        NonCriticalError::FailedToExtractIsolatedFilePathData(s) =>
            "failed to extract isolated file path data: "@ + s@,
    }
}

impl NonCriticalError {
    /// The text of the error, as it is stored in a report.
    pub fn text(&self) -> (r: String)
        ensures
            r@ == non_critical_error_text(*self),
    {
        match self {
            NonCriticalError::FailedToExtractFileMetadata(s) => String::from_str(
                "failed to extract file metadata: ",
            ).concat(s.as_str()),
            NonCriticalError::FailedToExtractIsolatedFilePathData(s) => String::from_str(
                "failed to extract isolated file path data: ",
            ).concat(s.as_str()),
        }
    }
}

/// Metadata a job was started with.
#[derive(Debug)]
pub enum ReportInputMetadata {
    Location(i32),
    SubPath(String),
}

/// Metadata a job produced.
#[derive(Debug)]
pub enum ReportOutputMetadata {
    Metric(String, u64),
}

/// Input or output metadata of a report.
#[derive(Debug)]
pub enum ReportMetadata {
    Input(ReportInputMetadata),
    Output(ReportOutputMetadata),
}

impl ReportMetadata {
    /// An equal copy of the metadata.
    pub fn duplicate(&self) -> (r: Self)
        ensures
            r == *self,
    {
        match self {
            ReportMetadata::Input(ReportInputMetadata::Location(id)) => ReportMetadata::Input(
                ReportInputMetadata::Location(*id),
            ),
            ReportMetadata::Input(ReportInputMetadata::SubPath(p)) => ReportMetadata::Input(
                ReportInputMetadata::SubPath(p.clone()),
            ),
            ReportMetadata::Output(ReportOutputMetadata::Metric(k, v)) => ReportMetadata::Output(
                ReportOutputMetadata::Metric(k.clone(), *v),
            ),
        }
    }
}

/// An equal copy of a list of metadata.
pub fn duplicate_metadata(list: &Vec<ReportMetadata>) -> (r: Vec<ReportMetadata>)
    ensures
        r@ == list@,
{
    let mut r: Vec<ReportMetadata> = Vec::new();
    let mut i: usize = 0;
    while i < list.len()
        invariant
            i <= list.len(),
            r@ == list@.subrange(0, i as int),
        decreases list.len() - i,
    {
        r.push(list[i].duplicate());
        i = i + 1;
    }
    assert(list@.subrange(0, list.len() as int) =~= list@);
    r
}

/// The persisted record of a job.
#[derive(Debug)]
pub struct Report {
    pub id: u128,
    pub name: JobName,
    pub action: Option<String>,
    pub parent_id: Option<u128>,
    pub metadata: Vec<ReportMetadata>,
    pub critical_error: Option<String>,
    pub non_critical_errors: Vec<String>,
    pub created_at: Option<i64>,
    pub started_at: Option<i64>,
    pub completed_at: Option<i64>,
    pub status: Status,
}

/// Builds the report of a job that is about to be queued.
#[derive(Debug)]
pub struct ReportBuilder {
    pub id: u128,
    pub name: JobName,
    pub action: Option<String>,
    pub metadata: Vec<ReportMetadata>,
    pub parent_id: Option<u128>,
}

/// Whether a report is the fresh report of a builder's identity, name, action and parent.
pub open spec fn is_fresh_report(r: Report, id: u128, name: JobName, action: Option<String>, parent_id: Option<u128>, metadata: Seq<ReportMetadata>) -> bool {
    &&& r.id == id
    &&& r.name == name
    &&& r.action == action
    &&& r.parent_id == parent_id
    &&& r.metadata@ == metadata
    &&& r.critical_error is None
    &&& r.non_critical_errors@.len() == 0
    &&& r.created_at is None
    &&& r.started_at is None
    &&& r.completed_at is None
    &&& r.status == Status::Queued
}

impl ReportBuilder {
    /// A builder for the report of job `id` of kind `name`.
    pub fn new(id: u128, name: JobName) -> (r: Self)
        ensures
            r.id == id,
            r.name == name,
            r.action is None,
            r.metadata@.len() == 0,
            r.parent_id is None,
    {
        ReportBuilder { id, name, action: None, metadata: Vec::new(), parent_id: None }
    }

    /// Sets the action of the job.
    pub fn with_action(self, action: String) -> (r: Self)
        ensures
            r.action == Some(action),
            r.id == self.id,
            r.name == self.name,
            r.metadata == self.metadata,
            r.parent_id == self.parent_id,
    {
        ReportBuilder { action: Some(action), ..self }
    }

    /// Sets the parent of the job.
    pub fn with_parent_id(self, parent_id: u128) -> (r: Self)
        ensures
            r.parent_id == Some(parent_id),
            r.id == self.id,
            r.name == self.name,
            r.metadata == self.metadata,
            r.action == self.action,
    {
        ReportBuilder { parent_id: Some(parent_id), ..self }
    }

    /// Adds input metadata.
    pub fn with_metadata(self, metadata: ReportInputMetadata) -> (r: Self)
        ensures
            r.metadata@ == self.metadata@.push(ReportMetadata::Input(metadata)),
            r.id == self.id,
            r.name == self.name,
            r.action == self.action,
            r.parent_id == self.parent_id,
    {
        let mut s = self;
        s.metadata.push(ReportMetadata::Input(metadata));
        s
    }

    /// The report of the queued job.
    pub fn build(self) -> (r: Report)
        ensures
            is_fresh_report(r, self.id, self.name, self.action, self.parent_id, self.metadata@),
    {
        Report {
            id: self.id,
            name: self.name,
            action: self.action,
            parent_id: self.parent_id,
            metadata: self.metadata,
            critical_error: None,
            non_critical_errors: Vec::new(),
            created_at: None,
            started_at: None,
            completed_at: None,
            status: Status::Queued,
        }
    }
}

/// The data a completed job hands back.
#[derive(Debug, Clone, Copy, PartialEq, Eq, Structural)]
pub enum JobOutputData {
    Empty,
}

/// What a job returns when it completes.
#[derive(Debug)]
pub struct JobReturn {
    pub data: JobOutputData,
    pub metadata: Option<ReportOutputMetadata>,
    pub non_critical_errors: Vec<NonCriticalError>,
}

impl JobReturn {
    /// The empty return: no data, no metadata, no errors.
    pub fn default() -> (r: Self)
        ensures
            r.data == JobOutputData::Empty,
            r.metadata is None,
            r.non_critical_errors@.len() == 0,
    {
        JobReturn { data: JobOutputData::Empty, metadata: None, non_critical_errors: Vec::new() }
    }

    /// A builder that starts from the empty return.
    pub fn builder() -> (r: JobReturnBuilder)
        ensures
            r.job_return.data == JobOutputData::Empty,
            r.job_return.metadata is None,
            r.job_return.non_critical_errors@.len() == 0,
    {
        JobReturnBuilder { job_return: Self::default() }
    }
}

/// Builds a [`JobReturn`].
#[derive(Debug)]
pub struct JobReturnBuilder {
    pub job_return: JobReturn,
}

impl JobReturnBuilder {
    /// Sets the returned data.
    pub fn with_data(self, data: JobOutputData) -> (r: Self)
        ensures
            r.job_return.data == data,
            r.job_return.metadata == self.job_return.metadata,
            r.job_return.non_critical_errors == self.job_return.non_critical_errors,
    {
        let mut s = self;
        s.job_return.data = data;
        s
    }

    /// Sets the output metadata.
    pub fn with_metadata(self, metadata: ReportOutputMetadata) -> (r: Self)
        ensures
            r.job_return.metadata == Some(metadata),
            r.job_return.data == self.job_return.data,
            r.job_return.non_critical_errors == self.job_return.non_critical_errors,
    {
        let mut s = self;
        s.job_return.metadata = Some(metadata);
        s
    }

    /// Adds non critical errors after the ones already present.
    pub fn with_non_critical_errors(self, errors: Vec<NonCriticalError>) -> (r: Self)
        ensures
            r.job_return.non_critical_errors@ == self.job_return.non_critical_errors@ + errors@,
            r.job_return.data == self.job_return.data,
            r.job_return.metadata == self.job_return.metadata,
    {
        let mut s = self;
        if s.job_return.non_critical_errors.len() == 0 {
            proof {
                assert(errors@ =~= s.job_return.non_critical_errors@ + errors@);
            }
            s.job_return.non_critical_errors = errors;
        } else {
            let mut errors = errors;
            s.job_return.non_critical_errors.append(&mut errors);
        }
        s
    }

    /// The built return.
    pub fn build(self) -> (r: JobReturn)
        ensures
            r == self.job_return,
    {
        self.job_return
    }
}

/// What the job system reports of a completed job.
#[derive(Debug)]
pub struct JobOutput {
    pub id: u128,
    pub status: Status,
    pub job_name: JobName,
    pub data: JobOutputData,
    pub metadata: Vec<ReportMetadata>,
    pub non_critical_errors: Vec<NonCriticalError>,
}

/// The texts of a list of non critical errors.
pub open spec fn error_texts(errors: Seq<NonCriticalError>) -> Seq<Seq<char>> {
    errors.map_values(|e: NonCriticalError| non_critical_error_text(e))
}

/// The views of a list of strings.
pub open spec fn string_views(s: Seq<String>) -> Seq<Seq<char>> {
    s.map_values(|x: String| x@)
}

/// The texts of a list of non critical errors, in order.
pub fn texts_of(errors: &Vec<NonCriticalError>) -> (r: Vec<String>)
    ensures
        string_views(r@) == error_texts(errors@),
{
    let mut r: Vec<String> = Vec::new();
    let mut i: usize = 0;
    while i < errors.len()
        invariant
            i <= errors.len(),
            r@.len() == i,
            forall|j: int| 0 <= j < i ==> #[trigger] r@[j]@ == non_critical_error_text(errors@[j]),
        decreases errors.len() - i,
    {
        let t = errors[i].text();
        r.push(t);
        i = i + 1;
    }
    assert(string_views(r@) =~= error_texts(errors@));
    r
}

/// The report of a job after it completed with `job_return` at time `now`.
pub open spec fn completed_report_matches(old_r: Report, new_r: Report, job_return: JobReturn, now: i64) -> bool {
    &&& new_r.status == (if job_return.non_critical_errors@.len() == 0 {
        Status::Completed
    } else {
        Status::CompletedWithErrors
    })
    &&& (job_return.non_critical_errors@.len() == 0 ==> new_r.non_critical_errors
        == old_r.non_critical_errors)
    &&& (job_return.non_critical_errors@.len() != 0 ==> string_views(new_r.non_critical_errors@)
        == error_texts(job_return.non_critical_errors@))
    &&& new_r.metadata@ == (match job_return.metadata {
        Some(m) => old_r.metadata@.push(ReportMetadata::Output(m)),
        None => old_r.metadata@,
    })
    &&& new_r.completed_at == Some(now)
    &&& new_r.id == old_r.id
    &&& new_r.name == old_r.name
    &&& new_r.action == old_r.action
    &&& new_r.parent_id == old_r.parent_id
    &&& new_r.critical_error == old_r.critical_error
    &&& new_r.created_at == old_r.created_at
    &&& new_r.started_at == old_r.started_at
}

impl JobOutput {
    /// Marks the report as completed and builds the job's output from it.
    pub fn prepare_output_and_report(job_return: JobReturn, report: &mut Report, now: i64) -> (r:
        Self)
        ensures
            completed_report_matches(*old(report), *final(report), job_return, now),
            r.id == final(report).id,
            r.status == final(report).status,
            r.job_name == final(report).name,
            r.data == job_return.data,
            r.metadata@ == final(report).metadata@,
            r.non_critical_errors == job_return.non_critical_errors,
    {
        let JobReturn { data, metadata, non_critical_errors } = job_return;
        if non_critical_errors.len() == 0 {
            report.status = Status::Completed;
        } else {
            report.status = Status::CompletedWithErrors;
            report.non_critical_errors = texts_of(&non_critical_errors);
        }
        match metadata {
            Some(m) => report.metadata.push(ReportMetadata::Output(m)),
            None => {},
        }
        report.completed_at = Some(now);
        JobOutput {
            id: report.id,
            status: report.status,
            job_name: report.name,
            data,
            metadata: duplicate_metadata(&report.metadata),
            non_critical_errors,
        }
    }
}


/// A completed job's report says how it went: completed when the job
/// returned no non-critical error, completed with errors (whose texts it
/// keeps, in order) otherwise; it records when the job completed, and its
/// identity, kind, start and critical error stay as they were.
pub proof fn lemma_completion_report(old_r: Report, new_r: Report, job_return: JobReturn, now: i64)
    requires
        completed_report_matches(old_r, new_r, job_return, now),
    ensures
        job_return.non_critical_errors@.len() == 0 ==> new_r.status == Status::Completed,
        job_return.non_critical_errors@.len() > 0 ==> new_r.status == Status::CompletedWithErrors
            && new_r.non_critical_errors@.len() == job_return.non_critical_errors@.len()
            && forall|i: int| 0 <= i < new_r.non_critical_errors@.len() ==> (#[trigger] new_r.non_critical_errors@[i])@
                == non_critical_error_text(job_return.non_critical_errors@[i]),
        new_r.completed_at == Some(now),
        new_r.id == old_r.id && new_r.name == old_r.name && new_r.started_at == old_r.started_at
            && new_r.critical_error == old_r.critical_error,
{
    if job_return.non_critical_errors@.len() > 0 {
        assert(string_views(new_r.non_critical_errors@).len() == new_r.non_critical_errors@.len());
        assert(error_texts(job_return.non_critical_errors@).len() == job_return.non_critical_errors@.len());
        assert forall|i: int| 0 <= i < new_r.non_critical_errors@.len() implies (#[trigger] new_r.non_critical_errors@[i])@
            == non_critical_error_text(job_return.non_critical_errors@[i]) by {
            assert(string_views(new_r.non_critical_errors@)[i] == error_texts(job_return.non_critical_errors@)[i]);
        }
    }
}
} // verus!
