//! The media processor's planning: files are processed in batches of ten,
//! followed by a wait for the thumbnails dispatched; thumbnails of the first
//! directory are generated in the foreground, the rest in the background;
//! the shallow processor puts PDF files last, as they are the slowest.
use vstd::prelude::*;
use crate::text::{decimal, push_decimal, str_eq};
use crate::job_report::ProgressUpdate;

verus! {

/// Files are processed in batches of this many.
pub const BATCH_SIZE: usize = 10;

/// A file path as the media processor reads it.
#[derive(Debug, Clone)]
pub struct MediaFilePath {
    pub id: i32,
    pub materialized_path: Option<String>,
    pub is_dir: Option<bool>,
    pub name: Option<String>,
    pub extension: Option<String>,
    pub cas_id: Option<String>,
    pub object_id: Option<i32>,
}

/// What starts a media processor job.
#[derive(Debug, Clone)]
pub struct MediaProcessorJobInit {
    pub location_id: i32,
    pub location_path: Option<String>,
    pub sub_path: Option<String>,
    pub regenerate_thumbnails: bool,
}

/// A step of a media processor job.
#[derive(Debug)]
pub enum MediaProcessorJobStep {
    ExtractMediaData(Vec<MediaFilePath>),
    WaitThumbnails(usize),
}

impl MediaProcessorJobInit {
    /// The location the job works on.
    pub fn target_location(&self) -> (r: i32)
        ensures
            r == self.location_id,
    {
        self.location_id
    }
}

/// `s` cut into consecutive pieces of `n` (the last may be shorter).
pub open spec fn chunks_of<A>(s: Seq<A>, n: nat) -> Seq<Seq<A>>
    decreases s.len(),
{
    if n == 0 || s.len() == 0 {
        Seq::empty()
    } else if s.len() <= n {
        seq![s]
    } else {
        seq![s.subrange(0, n as int)] + chunks_of(s.subrange(n as int, s.len() as int), n)
    }
}

/// The concatenation of some pieces.
pub open spec fn flattened<A>(pieces: Seq<Seq<A>>) -> Seq<A>
    decreases pieces.len(),
{
    if pieces.len() == 0 {
        Seq::empty()
    } else {
        pieces[0] + flattened(pieces.drop_first())
    }
}

/// Batching loses and repeats no file: the batches, put back together,
/// are the files in order; each holds between one and `n` of them, and
/// there are as many as `n` goes into their number, rounded up.
pub proof fn lemma_chunks_cover<A>(s: Seq<A>, n: nat)
    requires
        n > 0,
    ensures
        flattened(chunks_of(s, n)) == s,
        forall|k: int| 0 <= k < chunks_of(s, n).len() ==> 1 <= (#[trigger] chunks_of(s, n)[k]).len() <= n,
        chunks_of(s, n).len() * n >= s.len(),
        chunks_of(s, n).len() * n < s.len() + n,
    decreases s.len(),
{
    if s.len() == 0 {
    } else if s.len() <= n {
        let c = chunks_of(s, n);
        assert(c == seq![s]);
        assert(c.drop_first() =~= Seq::<Seq<A>>::empty());
        assert(c[0] == s);
        assert(flattened(c.drop_first()) =~= Seq::<A>::empty());
        assert(flattened(c) =~= s);
        assert(c.len() * n == n) by (nonlinear_arith)
            requires
                c.len() == 1,
        ;
    } else {
        let t = s.subrange(n as int, s.len() as int);
        lemma_chunks_cover(t, n);
        let c = chunks_of(s, n);
        assert(c == seq![s.subrange(0, n as int)] + chunks_of(t, n));
        assert(c.drop_first() =~= chunks_of(t, n));
        assert(s =~= s.subrange(0, n as int) + t);
        assert forall|k: int| 0 <= k < c.len() implies 1 <= (#[trigger] c[k]).len() <= n by {
            if k > 0 {
                assert(c[k] == chunks_of(t, n)[k - 1]);
            }
        }
        assert(c.len() == 1 + chunks_of(t, n).len());
        assert(c.len() * n == n + chunks_of(t, n).len() * n) by (nonlinear_arith)
            requires
                c.len() == 1 + chunks_of(t, n).len(),
        ;
    }
}

/// Cuts `files` into batches of [`BATCH_SIZE`], in order.
pub fn chunk_files(files: Vec<MediaFilePath>) -> (r: Vec<Vec<MediaFilePath>>)
    ensures
        r@.map_values(|c: Vec<MediaFilePath>| c@) == chunks_of(files@, BATCH_SIZE as nat),
{
    let ghost all = files@;
    let mut r: Vec<Vec<MediaFilePath>> = Vec::new();
    let mut rest = files;
    while rest.len() > 0
        invariant
            chunks_of(all, BATCH_SIZE as nat) == r@.map_values(|c: Vec<MediaFilePath>| c@)
                + chunks_of(rest@, BATCH_SIZE as nat),
        decreases rest.len(),
    {
        let ghost before = r@;
        let ghost old_rest = rest@;
        if rest.len() <= BATCH_SIZE {
            let chunk = rest;
            rest = Vec::new();
            r.push(chunk);
            proof {
                assert(chunks_of(old_rest, BATCH_SIZE as nat) =~= seq![old_rest]);
                assert(chunks_of(rest@, BATCH_SIZE as nat) =~= Seq::<Seq<MediaFilePath>>::empty());
                assert(r@.map_values(|c: Vec<MediaFilePath>| c@) =~= before.map_values(
                    |c: Vec<MediaFilePath>| c@,
                ).push(old_rest));
            }
        } else {
            let tail = rest.split_off(BATCH_SIZE);
            let chunk = rest;
            rest = tail;
            r.push(chunk);
            proof {
                assert(r@.map_values(|c: Vec<MediaFilePath>| c@) =~= before.map_values(
                    |c: Vec<MediaFilePath>| c@,
                ).push(old_rest.subrange(0, 10)));
                assert(chunks_of(old_rest, BATCH_SIZE as nat) == seq![old_rest.subrange(0, 10)]
                    + chunks_of(rest@, BATCH_SIZE as nat));
                assert(before.map_values(|c: Vec<MediaFilePath>| c@).push(old_rest.subrange(0, 10))
                    =~= before.map_values(|c: Vec<MediaFilePath>| c@) + seq![old_rest.subrange(0, 10)]);
            }
        }
    }
    proof {
        assert(r@.map_values(|c: Vec<MediaFilePath>| c@) + Seq::empty() =~= r@.map_values(
            |c: Vec<MediaFilePath>| c@,
        ));
    }
    r
}

/// Whether a step extracts the media data of the files `chunk`.
pub open spec fn extracts(step: MediaProcessorJobStep, chunk: Seq<MediaFilePath>) -> bool {
    match step {
        MediaProcessorJobStep::ExtractMediaData(c) => c@ == chunk,
        MediaProcessorJobStep::WaitThumbnails(_) => false,
    }
}

/// The steps of a media processor job: the batches of files whose media
/// data is extracted, then, when thumbnails were dispatched, a wait for them.
pub fn plan_steps(files: Vec<MediaFilePath>, thumbs_to_process: u32) -> (r: Vec<MediaProcessorJobStep>)
    ensures
        r@.len() == chunks_of(files@, BATCH_SIZE as nat).len() + if thumbs_to_process > 0 {
            1int
        } else {
            0int
        },
        forall|k: int|
            0 <= k < chunks_of(files@, BATCH_SIZE as nat).len() ==> extracts(
                #[trigger] r@[k],
                chunks_of(files@, BATCH_SIZE as nat)[k],
            ),
        thumbs_to_process > 0 ==> r@.last() == MediaProcessorJobStep::WaitThumbnails(
            thumbs_to_process as usize,
        ),
{
    let ghost chunks_view = chunks_of(files@, BATCH_SIZE as nat);
    let chunks = chunk_files(files);
    let mut r: Vec<MediaProcessorJobStep> = Vec::new();
    let mut rest = chunks;
    let ghost all = rest@;
    let ghost n = all.len();
    while rest.len() > 0
        invariant
            r@.len() + rest@.len() == n,
            n == all.len(),
            all.map_values(|c: Vec<MediaFilePath>| c@) == chunks_view,
            rest@ == all.subrange(r@.len() as int, n as int),
            forall|k: int|
                0 <= k < r@.len() ==> extracts(#[trigger] r@[k], chunks_view[k]),
        decreases rest.len(),
    {
        let ghost k = r@.len();
        let chunk = rest.remove(0);
        proof {
            assert(chunk == all[k as int]);
            assert(chunks_view[k as int] == all[k as int]@);
        }
        r.push(MediaProcessorJobStep::ExtractMediaData(chunk));
        proof {
            assert(rest@ =~= all.subrange(r@.len() as int, n as int));
        }
    }
    if thumbs_to_process > 0 {
        r.push(MediaProcessorJobStep::WaitThumbnails(thumbs_to_process as usize));
    }
    r
}

/// The message announcing the work of a media processor job.
pub fn preparing_message(total_files: usize, chunks: usize) -> (r: String)
    ensures
        r@ == "Preparing to process "@ + decimal(total_files as nat) + " files in "@ + decimal(
            chunks as nat,
        ) + " chunks"@,
{
    let mut r = String::from_str("Preparing to process ");
    push_decimal(&mut r, total_files as u128);
    r.append(" files in ");
    push_decimal(&mut r, chunks as u128);
    r.append(" chunks");
    r
}

/// The message of the step waiting for thumbnails.
pub fn waiting_message(total_thumbs: usize) -> (r: String)
    ensures
        r@ == "Waiting for processing of "@ + decimal(total_thumbs as nat) + " thumbnails"@,
{
    let mut r = String::from_str("Waiting for processing of ");
    push_decimal(&mut r, total_thumbs as u128);
    r.append(" thumbnails");
    r
}

/// The number of files done after `completed` files of batch `step_number`.
pub fn completed_task_count(step_number: usize, completed: usize) -> (r: usize)
    requires
        step_number * BATCH_SIZE + completed <= usize::MAX,
    ensures
        r == step_number * BATCH_SIZE + completed,
{
    step_number * BATCH_SIZE + completed
}

/// Whether a thumbnail wait ended early: the thumbnailer stopped reporting
/// before all thumbnails were done.
pub fn thumbnails_wait_cut_short(channel_closed: bool, completed: u32, total: usize) -> (r: bool)
    ensures
        r == (channel_closed && completed < total),
{
    channel_closed && (completed as usize) < total
}

/// What a thumbnail is generated from: the file's extension, content id
/// and full path.
#[derive(Debug, Clone)]
pub struct GenerateThumbnailArgs {
    pub extension: String,
    pub cas_id: String,
    pub path: String,
}

/// The path of a file relative to its location: its materialized path
/// without the leading `/`, its name and, when it has one, its extension.
pub open spec fn relative_path(materialized_path: Seq<char>, name: Seq<char>, extension: Seq<char>) -> Seq<char> {
    materialized_path.subrange(1, materialized_path.len() as int) + name + if extension.len() == 0 {
        Seq::empty()
    } else {
        "."@ + extension
    }
}

/// A path joined with a relative one, with a `/` between them unless the
/// first already ends with one.
pub open spec fn joined_path(base: Seq<char>, rel: Seq<char>) -> Seq<char> {
    if base.len() > 0 && base.last() == '/' {
        base + rel
    } else {
        base + "/"@ + rel
    }
}

/// The thumbnail arguments of a file path, if it has a content id and all
/// the parts of a path (its materialized path starting with `/`).
pub open spec fn thumbnail_args(location_path: Seq<char>, f: MediaFilePath) -> Option<(Seq<char>, Seq<char>, Seq<char>)> {
    match (f.cas_id, f.materialized_path, f.is_dir, f.name, f.extension) {
        (Some(cas), Some(mp), Some(_), Some(name), Some(ext)) => if mp@.len() > 0 {
            Some((ext@, cas@, joined_path(location_path, relative_path(mp@, name@, ext@))))
        } else {
            None
        },
        _ => None,
    }
}

fn push_relative(out: &mut String, mp: &str, name: &str, ext: &str)
    requires
        mp@.len() > 0,
    ensures
        final(out)@ == old(out)@ + relative_path(mp@, name@, ext@),
{
    out.append(mp.substring_char(1, mp.unicode_len()));
    out.append(name);
    if ext.unicode_len() > 0 {
        out.append(".");
        out.append(ext);
    }
}

/// The arguments of a file path's thumbnail; none for a path without a
/// content id or whose path cannot be rebuilt.
pub fn prepare_args(location_path: &str, file_path: &MediaFilePath) -> (r: Option<GenerateThumbnailArgs>)
    ensures
        match r {
            Some(a) => thumbnail_args(location_path@, *file_path) == Some((a.extension@, a.cas_id@, a.path@)),
            None => thumbnail_args(location_path@, *file_path) is None,
        },
{
    match (&file_path.cas_id, &file_path.materialized_path, &file_path.is_dir, &file_path.name, &file_path.extension) {
        (Some(cas), Some(mp), Some(_), Some(name), Some(ext)) => {
            if mp.unicode_len() == 0 {
                return None;
            }
            let mut path = String::from_str(location_path);
            let n = location_path.unicode_len();
            if !(n > 0 && location_path.get_char(n - 1) == '/') {
                path.append("/");
            }
            push_relative(&mut path, mp.as_str(), name.as_str(), ext.as_str());
            Some(GenerateThumbnailArgs { extension: ext.clone(), cas_id: cas.clone(), path })
        },
        _ => None,
    }
}

/// Whether two optional texts are equal.
pub open spec fn same_text(a: Option<String>, b: Option<String>) -> bool {
    match (a, b) {
        (Some(x), Some(y)) => x@ == y@,
        (None, None) => true,
        _ => false,
    }
}

fn same_optional_text(a: &Option<String>, b: &Option<String>) -> (r: bool)
    ensures
        r == same_text(*a, *b),
{
    match (a, b) {
        (Some(x), Some(y)) => str_eq(x.as_str(), y.as_str()),
        (None, None) => true,
        _ => false,
    }
}

/// Where the file paths stop sharing the first one's directory: their
/// thumbnails from there on are generated in the background.
pub fn foreground_split(files: &Vec<MediaFilePath>) -> (r: usize)
    ensures
        r <= files@.len(),
        files@.len() > 0 ==> r >= 1,
        forall|i: int| 0 <= i < r ==> same_text(#[trigger] files@[i].materialized_path, files@[0].materialized_path),
        r < files@.len() ==> !same_text(files@[r as int].materialized_path, files@[0].materialized_path),
{
    if files.len() == 0 {
        return 0;
    }
    let mut i: usize = 1;
    proof {
        match files@[0].materialized_path {
            Some(x) => assert(x@ == x@),
            None => {},
        }
    }
    while i < files.len()
        invariant
            1 <= i <= files@.len(),
            forall|k: int| 0 <= k < i ==> same_text(#[trigger] files@[k].materialized_path, files@[0].materialized_path),
        decreases files.len() - i,
    {
        if !same_optional_text(&files[i].materialized_path, &files[0].materialized_path) {
            return i;
        }
        i = i + 1;
    }
    i
}

/// The thumbnail arguments of some file paths, in order, skipping those
/// that have none.
pub open spec fn all_thumbnail_args(location_path: Seq<char>, files: Seq<MediaFilePath>) -> Seq<(Seq<char>, Seq<char>, Seq<char>)>
    decreases files.len(),
{
    if files.len() == 0 {
        Seq::empty()
    } else {
        let rest = all_thumbnail_args(location_path, files.drop_last());
        match thumbnail_args(location_path, files.last()) {
            Some(a) => rest.push(a),
            None => rest,
        }
    }
}

/// The texts of some thumbnail arguments.
pub open spec fn args_views(v: Seq<GenerateThumbnailArgs>) -> Seq<(Seq<char>, Seq<char>, Seq<char>)> {
    v.map_values(|a: GenerateThumbnailArgs| (a.extension@, a.cas_id@, a.path@))
}

/// The thumbnail arguments of file paths `from..to`.
pub fn thumbnail_batch(location_path: &str, files: &Vec<MediaFilePath>, from: usize, to: usize) -> (r: Vec<GenerateThumbnailArgs>)
    requires
        from <= to <= files@.len(),
    ensures
        args_views(r@) == all_thumbnail_args(location_path@, files@.subrange(from as int, to as int)),
{
    let mut r: Vec<GenerateThumbnailArgs> = Vec::new();
    let mut i: usize = from;
    while i < to
        invariant
            from <= i <= to,
            to <= files@.len(),
            args_views(r@) == all_thumbnail_args(location_path@, files@.subrange(from as int, i as int)),
        decreases to - i,
    {
        proof {
            assert(files@.subrange(from as int, i + 1).drop_last() =~= files@.subrange(from as int, i as int));
        }
        let ghost before = r@;
        match prepare_args(location_path, &files[i]) {
            Some(a) => {
                r.push(a);
                proof {
                    assert(args_views(r@) =~= args_views(before).push((a.extension@, a.cas_id@, a.path@)));
                }
            },
            None => {},
        }
        i = i + 1;
    }
    r
}

/// Whether a thumbnail's extension is `pdf`.
pub open spec fn is_pdf(a: (Seq<char>, Seq<char>, Seq<char>)) -> bool {
    a.0 == "pdf"@
}

/// The thumbnail arguments with PDF files moved last, each group keeping
/// its order (PDF thumbnails are the slowest to generate).
pub fn pdf_last(args: Vec<GenerateThumbnailArgs>) -> (r: Vec<GenerateThumbnailArgs>)
    ensures
        args_views(r@) == args_views(args@).filter(|a: (Seq<char>, Seq<char>, Seq<char>)| !is_pdf(a))
            + args_views(args@).filter(|a: (Seq<char>, Seq<char>, Seq<char>)| is_pdf(a)),
{
    let ghost all = args_views(args@);
    let mut others: Vec<GenerateThumbnailArgs> = Vec::new();
    let mut pdfs: Vec<GenerateThumbnailArgs> = Vec::new();
    let mut rest = args;
    let ghost mut k: int = 0;
    while rest.len() > 0
        invariant
            0 <= k <= all.len(),
            args_views(rest@) == all.subrange(k, all.len() as int),
            args_views(others@) == all.subrange(0, k).filter(|a: (Seq<char>, Seq<char>, Seq<char>)| !is_pdf(a)),
            args_views(pdfs@) == all.subrange(0, k).filter(|a: (Seq<char>, Seq<char>, Seq<char>)| is_pdf(a)),
        decreases rest.len(),
    {
        let ghost old_rest = rest@;
        let a = rest.remove(0);
        let ghost av = (a.extension@, a.cas_id@, a.path@);
        proof {
            assert(old_rest.len() > 0);
            assert(args_views(old_rest).len() == old_rest.len());
            assert(all.subrange(k, all.len() as int).len() == all.len() - k);
            assert(k < all.len());
            assert(args_views(old_rest)[0] == av);
            assert(all.subrange(k, all.len() as int)[0] == all[k]);
            assert(all[k] == av);
            reveal(Seq::filter);
            let s = all.subrange(0, k + 1);
            assert(s.drop_last() =~= all.subrange(0, k));
            assert(s.last() == av);
            assert forall|j: int| 0 <= j < rest@.len() implies args_views(rest@)[j] == all.subrange(
                k + 1,
                all.len() as int,
            )[j] by {
                assert(rest@[j] == old_rest[j + 1]);
                assert(args_views(old_rest)[j + 1] == all.subrange(k, all.len() as int)[j + 1]);
            }
            assert(args_views(rest@) =~= all.subrange(k + 1, all.len() as int));
        }
        let ghost before_o = others@;
        let ghost before_p = pdfs@;
        if str_eq(a.extension.as_str(), "pdf") {
            pdfs.push(a);
            proof {
                assert(args_views(pdfs@) =~= args_views(before_p).push(av));
            }
        } else {
            others.push(a);
            proof {
                assert(args_views(others@) =~= args_views(before_o).push(av));
            }
        }
        proof {
            k = k + 1;
        }
    }
    proof {
        assert(all.subrange(0, k) =~= all);
    }
    let ghost o = others@;
    let ghost p = pdfs@;
    others.append(&mut pdfs);
    proof {
        assert(args_views(others@) =~= args_views(o) + args_views(p));
    }
    others
}


/// What setting a media processor job up gives: the job's data (the
/// location's path, the path processed, and whether the thumbnailer's
/// progress is received), the run metadata's count of thumbnails to
/// process, the progress reported, and the steps.
#[derive(Debug)]
pub struct MediaProcessorSetup {
    pub location_path: String,
    pub to_process_path: String,
    pub receives_thumbnailer_progress: bool,
    pub thumbs_processed: u32,
    pub progress: Vec<ProgressUpdate>,
    pub steps: Vec<MediaProcessorJobStep>,
}

/// Why a media processor job cannot be set up.
#[derive(Debug, Clone, PartialEq, Eq)]
pub enum MediaInitError {
    /// The location has no path.
    MissingLocationPath,
}

/// Sets a media processor job up. `location_path` is the location's path;
/// `sub_path` the directory to process when one below the location was
/// asked for (checked by the caller), else none; `thumbs_to_process` the
/// thumbnails dispatched and `files` the files whose media data is
/// extracted.
pub fn media_processor_setup(
    location_path: Option<String>,
    sub_path: Option<String>,
    thumbs_to_process: u32,
    files: Vec<MediaFilePath>,
) -> (r: Result<MediaProcessorSetup, MediaInitError>)
    ensures
        location_path is None ==> r == Err::<MediaProcessorSetup, MediaInitError>(
            MediaInitError::MissingLocationPath,
        ),
        location_path matches Some(lp) ==> (r matches Ok(s) && {
            let n_chunks = chunks_of(files@, BATCH_SIZE as nat).len();
            &&& s.location_path == lp
            &&& s.to_process_path == (match sub_path {
                Some(p) => p,
                None => lp,
            })
            &&& s.receives_thumbnailer_progress == (thumbs_to_process > 0)
            &&& s.thumbs_processed == thumbs_to_process
            &&& s.steps@.len() == n_chunks + if thumbs_to_process > 0 { 1int } else { 0int }
            &&& (forall|k: int| 0 <= k < n_chunks ==> extracts(#[trigger] s.steps@[k], chunks_of(files@, BATCH_SIZE as nat)[k]))
            &&& (thumbs_to_process > 0 ==> s.steps@.last() == MediaProcessorJobStep::WaitThumbnails(thumbs_to_process as usize))
            &&& s.progress@.len() == 3
            &&& s.progress@[0] == ProgressUpdate::TaskCount(files@.len() as u64)
            &&& (s.progress@[1] matches ProgressUpdate::Phase(p) && p@ == "media_data"@)
            &&& (s.progress@[2] matches ProgressUpdate::Message(m) && m@ == "Preparing to process "@ + decimal(files@.len()) + " files in "@ + decimal(s.steps@.len()) + " chunks"@)
        }),
{
    let lp = match location_path {
        None => {
            return Err(MediaInitError::MissingLocationPath);
        },
        Some(lp) => lp,
    };
    let to_process_path = match sub_path {
        Some(p) => p,
        None => lp.clone(),
    };
    let total = files.len();
    let steps = plan_steps(files, thumbs_to_process);
    let mut progress: Vec<ProgressUpdate> = Vec::new();
    progress.push(ProgressUpdate::TaskCount(total as u64));
    progress.push(ProgressUpdate::Phase(String::from_str("media_data")));
    progress.push(ProgressUpdate::Message(preparing_message(total, steps.len())));
    Ok(MediaProcessorSetup {
        location_path: lp,
        to_process_path,
        receives_thumbnailer_progress: thumbs_to_process > 0,
        thumbs_processed: thumbs_to_process,
        progress,
        steps,
    })
}

} // verus!
