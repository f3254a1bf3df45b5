//! The image labeler's batch bookkeeping: each batch gets a token, the
//! files of a batch that can be labelled are counted, and results are
//! forwarded to the batch's output until its count runs out.
//!
//! Sending images to the model, reading files and the channels are I/O:
//! the caller does them and hands their outcomes in.
use vstd::prelude::*;
use std::collections::HashMap;
use image::ImageFormat as F;

verus! {

broadcast use vstd::std_specs::hash::group_hash_axioms;

/// Files larger than this are not labelled (100 MiB).
pub const MAX_FILE_SIZE: u64 = 104857600;

/// Why a file of a batch gets no labels.
#[derive(Debug, Clone, PartialEq, Eq)]
pub enum LabelerError {
    /// Its location-relative path could not be built.
    IsolatedFilePath(String),
    /// Its extension is no image format the labeler reads.
    UnsupportedExtension(i32, String),
    /// It is larger than [`MAX_FILE_SIZE`].
    FileTooBig(i32, u64),
    /// It could not be inspected or read.
    FileIO(String),
}

/// The image formats the labeler can send to the model.
#[derive(Debug, Clone, Copy, PartialEq, Eq, Structural)]
pub enum ImageFormat {
    Png,
    Jpeg,
    Gif,
    WebP,
    Pnm,
    Tiff,
    Tga,
    Dds,
    Bmp,
    Ico,
    Hdr,
    OpenExr,
    Farbfeld,
    Avif,
    Qoi,
}

/// Whether `c` is an ASCII upper-case letter.
pub open spec fn is_ascii_upper(c: char) -> bool {
    'A' <= c && c <= 'Z'
}

/// The text with its ASCII letters in lower case.
pub open spec fn ascii_lower(s: Seq<char>) -> Seq<char> {
    s.map_values(|c: char| if is_ascii_upper(c) {
        ((c as u32 + 32) as u8) as char
    } else {
        c
    })
}

/// The image format of a (lower-case) extension, if it names one.
pub open spec fn format_of(ext: Seq<char>) -> Option<ImageFormat> {
    if ext == "avif"@ {
        Some(ImageFormat::Avif)
    } else if ext == "jpg"@ || ext == "jpeg"@ {
        Some(ImageFormat::Jpeg)
    } else if ext == "png"@ {
        Some(ImageFormat::Png)
    } else if ext == "gif"@ {
        Some(ImageFormat::Gif)
    } else if ext == "webp"@ {
        Some(ImageFormat::WebP)
    } else if ext == "tif"@ || ext == "tiff"@ {
        Some(ImageFormat::Tiff)
    } else if ext == "tga"@ {
        Some(ImageFormat::Tga)
    } else if ext == "dds"@ {
        Some(ImageFormat::Dds)
    } else if ext == "bmp"@ {
        Some(ImageFormat::Bmp)
    } else if ext == "ico"@ {
        Some(ImageFormat::Ico)
    } else if ext == "hdr"@ {
        Some(ImageFormat::Hdr)
    } else if ext == "exr"@ {
        Some(ImageFormat::OpenExr)
    } else if ext == "pbm"@ || ext == "pam"@ || ext == "ppm"@ || ext == "pgm"@ {
        Some(ImageFormat::Pnm)
    } else if ext == "ff"@ || ext == "farbfeld"@ {
        Some(ImageFormat::Farbfeld)
    } else if ext == "qoi"@ {
        Some(ImageFormat::Qoi)
    } else {
        None
    }
}

/// Whether the `image` crate knows the (lower-case) extension `ext`.
pub open spec fn known_image_extension(ext: Seq<char>) -> bool {
    format_of(ext) is Some
}

proof fn lemma_image_format_texts()
    ensures
        "avif"@.len() == 4 && "avif"@[0] == 'a' && "avif"@[1] == 'v' && "avif"@[2] == 'i' && "avif"@[3] == 'f',
        "jpg"@.len() == 3 && "jpg"@[0] == 'j' && "jpg"@[1] == 'p' && "jpg"@[2] == 'g',
        "jpeg"@.len() == 4 && "jpeg"@[0] == 'j' && "jpeg"@[1] == 'p' && "jpeg"@[2] == 'e' && "jpeg"@[3] == 'g',
        "png"@.len() == 3 && "png"@[0] == 'p' && "png"@[1] == 'n' && "png"@[2] == 'g',
        "gif"@.len() == 3 && "gif"@[0] == 'g' && "gif"@[1] == 'i' && "gif"@[2] == 'f',
        "webp"@.len() == 4 && "webp"@[0] == 'w' && "webp"@[1] == 'e' && "webp"@[2] == 'b' && "webp"@[3] == 'p',
        "tif"@.len() == 3 && "tif"@[0] == 't' && "tif"@[1] == 'i' && "tif"@[2] == 'f',
        "tiff"@.len() == 4 && "tiff"@[0] == 't' && "tiff"@[1] == 'i' && "tiff"@[2] == 'f' && "tiff"@[3] == 'f',
        "tga"@.len() == 3 && "tga"@[0] == 't' && "tga"@[1] == 'g' && "tga"@[2] == 'a',
        "dds"@.len() == 3 && "dds"@[0] == 'd' && "dds"@[1] == 'd' && "dds"@[2] == 's',
        "bmp"@.len() == 3 && "bmp"@[0] == 'b' && "bmp"@[1] == 'm' && "bmp"@[2] == 'p',
        "ico"@.len() == 3 && "ico"@[0] == 'i' && "ico"@[1] == 'c' && "ico"@[2] == 'o',
        "hdr"@.len() == 3 && "hdr"@[0] == 'h' && "hdr"@[1] == 'd' && "hdr"@[2] == 'r',
        "exr"@.len() == 3 && "exr"@[0] == 'e' && "exr"@[1] == 'x' && "exr"@[2] == 'r',
        "pbm"@.len() == 3 && "pbm"@[0] == 'p' && "pbm"@[1] == 'b' && "pbm"@[2] == 'm',
        "pam"@.len() == 3 && "pam"@[0] == 'p' && "pam"@[1] == 'a' && "pam"@[2] == 'm',
        "ppm"@.len() == 3 && "ppm"@[0] == 'p' && "ppm"@[1] == 'p' && "ppm"@[2] == 'm',
        "pgm"@.len() == 3 && "pgm"@[0] == 'p' && "pgm"@[1] == 'g' && "pgm"@[2] == 'm',
        "ff"@.len() == 2 && "ff"@[0] == 'f' && "ff"@[1] == 'f',
        "farbfeld"@.len() == 8 && "farbfeld"@[0] == 'f' && "farbfeld"@[1] == 'a' && "farbfeld"@[2] == 'r' && "farbfeld"@[3] == 'b' && "farbfeld"@[4] == 'f' && "farbfeld"@[5] == 'e' && "farbfeld"@[6] == 'l' && "farbfeld"@[7] == 'd',
        "qoi"@.len() == 3 && "qoi"@[0] == 'q' && "qoi"@[1] == 'o' && "qoi"@[2] == 'i',
{
    reveal_strlit("avif");
    reveal_strlit("jpg");
    reveal_strlit("jpeg");
    reveal_strlit("png");
    reveal_strlit("gif");
    reveal_strlit("webp");
    reveal_strlit("tif");
    reveal_strlit("tiff");
    reveal_strlit("tga");
    reveal_strlit("dds");
    reveal_strlit("bmp");
    reveal_strlit("ico");
    reveal_strlit("hdr");
    reveal_strlit("exr");
    reveal_strlit("pbm");
    reveal_strlit("pam");
    reveal_strlit("ppm");
    reveal_strlit("pgm");
    reveal_strlit("ff");
    reveal_strlit("farbfeld");
    reveal_strlit("qoi");
}

/// Each image extension the labeler reads names its own format (a PNG
/// file is sent as PNG, a JPEG as JPEG, the PNM family as PNM, ...).
pub proof fn lemma_image_formats()
    ensures
        format_of("avif"@) == Some(ImageFormat::Avif),
        format_of("jpg"@) == Some(ImageFormat::Jpeg),
        format_of("jpeg"@) == Some(ImageFormat::Jpeg),
        format_of("png"@) == Some(ImageFormat::Png),
        format_of("gif"@) == Some(ImageFormat::Gif),
        format_of("webp"@) == Some(ImageFormat::WebP),
        format_of("tif"@) == Some(ImageFormat::Tiff),
        format_of("tiff"@) == Some(ImageFormat::Tiff),
        format_of("tga"@) == Some(ImageFormat::Tga),
        format_of("dds"@) == Some(ImageFormat::Dds),
        format_of("bmp"@) == Some(ImageFormat::Bmp),
        format_of("ico"@) == Some(ImageFormat::Ico),
        format_of("hdr"@) == Some(ImageFormat::Hdr),
        format_of("exr"@) == Some(ImageFormat::OpenExr),
        format_of("pbm"@) == Some(ImageFormat::Pnm),
        format_of("pam"@) == Some(ImageFormat::Pnm),
        format_of("ppm"@) == Some(ImageFormat::Pnm),
        format_of("pgm"@) == Some(ImageFormat::Pnm),
        format_of("ff"@) == Some(ImageFormat::Farbfeld),
        format_of("farbfeld"@) == Some(ImageFormat::Farbfeld),
        format_of("qoi"@) == Some(ImageFormat::Qoi),
{
    lemma_image_format_texts();
}

/// Calls `image::ImageFormat::from_extension`. Its source lower-cases the
/// ASCII letters of the extension and names a format for the extensions of
/// [`format_of`], none for any other; the format is converted to the
/// library's own, variant for variant.
#[verifier::external_body]
fn image_format_from_extension(ext: &str) -> (r: Option<ImageFormat>)
    ensures
        r == format_of(ascii_lower(ext@)),
{
    match F::from_extension(ext)? {
        F::Png => Some(ImageFormat::Png), F::Jpeg => Some(ImageFormat::Jpeg),
        F::Gif => Some(ImageFormat::Gif), F::WebP => Some(ImageFormat::WebP),
        F::Pnm => Some(ImageFormat::Pnm), F::Tiff => Some(ImageFormat::Tiff),
        F::Tga => Some(ImageFormat::Tga), F::Dds => Some(ImageFormat::Dds),
        F::Bmp => Some(ImageFormat::Bmp), F::Ico => Some(ImageFormat::Ico),
        F::Hdr => Some(ImageFormat::Hdr), F::OpenExr => Some(ImageFormat::OpenExr),
        F::Farbfeld => Some(ImageFormat::Farbfeld), F::Avif => Some(ImageFormat::Avif),
        F::Qoi => Some(ImageFormat::Qoi), _ => None,
    }
}

/// What the labeler finds of one file of a batch, in the order it looks:
/// its extension (or why its path could not be built), its size, and
/// whether reading it succeeded.
#[derive(Debug)]
pub struct FileFacts {
    pub file_path_id: i32,
    pub extension: Result<String, String>,
    pub size: Result<u64, String>,
    pub read: Result<(), String>,
}

/// What happens to one file of a batch: it is sent to the model, or the
/// batch's output gets an error for it.
pub open spec fn file_outcome(f: FileFacts) -> Option<LabelerError> {
    match f.extension {
        Err(e) => Some(LabelerError::IsolatedFilePath(e)),
        Ok(ext) => if !known_image_extension(ascii_lower(ext@)) {
            Some(LabelerError::UnsupportedExtension(f.file_path_id, ext))
        } else {
            match f.size {
                Err(e) => Some(LabelerError::FileIO(e)),
                Ok(len) => if len > MAX_FILE_SIZE {
                    Some(LabelerError::FileTooBig(f.file_path_id, len))
                } else {
                    match f.read {
                        Err(e) => Some(LabelerError::FileIO(e)),
                        Ok(()) => None,
                    }
                },
            }
        },
    }
}

/// Decides what happens to one file of a batch: the image format it is
/// sent to the model with, else the error the batch's output gets for it.
pub fn label_file(f: FileFacts) -> (r: Result<ImageFormat, LabelerError>)
    ensures
        match r {
            Ok(fmt) => file_outcome(f) is None && (f.extension matches Ok(ext) && Some(fmt)
                == format_of(ascii_lower(ext@))),
            Err(e) => file_outcome(f) == Some(e),
        },
{
    match f.extension {
        Err(e) => Err(LabelerError::IsolatedFilePath(e)),
        Ok(ext) => {
            let format = match image_format_from_extension(ext.as_str()) {
                None => {
                    return Err(LabelerError::UnsupportedExtension(f.file_path_id, ext));
                },
                Some(format) => format,
            };
            match f.size {
                Err(e) => Err(LabelerError::FileIO(e)),
                Ok(len) => {
                    if len > MAX_FILE_SIZE {
                        Err(LabelerError::FileTooBig(f.file_path_id, len))
                    } else {
                        match f.read {
                            Err(e) => Err(LabelerError::FileIO(e)),
                            Ok(()) => Ok(format),
                        }
                    }
                },
            }
        },
    }
}

/// The number of files of a batch sent to the model.
pub open spec fn sent_count(files: Seq<FileFacts>) -> nat
    decreases files.len(),
{
    if files.len() == 0 {
        0
    } else {
        sent_count(files.drop_last()) + if file_outcome(files.last()) is None {
            1nat
        } else {
            0nat
        }
    }
}

/// The image format a file is sent with: that of its extension.
pub open spec fn sent_format(f: FileFacts) -> ImageFormat {
    format_of(ascii_lower(f.extension->Ok_0@))->0
}

/// The ids of the files of a batch sent to the model, with the format each
/// is sent with, in order.
pub open spec fn sent_items(files: Seq<FileFacts>) -> Seq<(i32, ImageFormat)>
    decreases files.len(),
{
    if files.len() == 0 {
        Seq::empty()
    } else {
        let rest = sent_items(files.drop_last());
        if file_outcome(files.last()) is None {
            rest.push((files.last().file_path_id, sent_format(files.last())))
        } else {
            rest
        }
    }
}

/// Whether an error is found while the batch is collected (its path or its
/// extension), before any file is read.
pub open spec fn is_collect_error(e: LabelerError) -> bool {
    e is IsolatedFilePath || e is UnsupportedExtension
}

/// The errors of a batch's files that are (`early`) or are not found while
/// the batch is collected, with their file path ids, in file order.
pub open spec fn errors_when(files: Seq<FileFacts>, early: bool) -> Seq<(i32, LabelerError)>
    decreases files.len(),
{
    if files.len() == 0 {
        Seq::empty()
    } else {
        let rest = errors_when(files.drop_last(), early);
        match file_outcome(files.last()) {
            Some(e) => if is_collect_error(e) == early {
                rest.push((files.last().file_path_id, e))
            } else {
                rest
            },
            None => rest,
        }
    }
}

/// The errors the output of a batch gets for its files, with their file
/// path ids: first those found while the batch is collected, then those of
/// reading the files, each in file order.
pub open spec fn batch_errors(files: Seq<FileFacts>) -> Seq<(i32, LabelerError)> {
    errors_when(files, true) + errors_when(files, false)
}

/// What the batch processor keeps: the next batch's token and, for each
/// pending batch, how many of its results are still awaited.
pub struct BatchProcessor {
    next_token: u64,
    pending: HashMap<u64, u64>,
}

/// The model of a [`BatchProcessor`].
pub struct BatchProcessorView {
    pub next_token: u64,
    pub pending: Map<u64, u64>,
}

impl View for BatchProcessor {
    type V = BatchProcessorView;

    closed spec fn view(&self) -> BatchProcessorView {
        BatchProcessorView { next_token: self.next_token, pending: self.pending@ }
    }
}

/// A file accepted into a batch: the batch's token, the file and its
/// image format.
#[derive(Debug)]
pub struct ToProcess {
    pub batch_token: u64,
    pub file_path_id: i32,
    pub format: ImageFormat,
}

/// What the processor answered a new batch with.
#[derive(Debug)]
pub struct BatchAccepted {
    pub token: u64,
    /// The files sent to the model, in order.
    pub to_process: Vec<ToProcess>,
    /// The errors the batch's output gets, in order.
    pub errors: Vec<(i32, LabelerError)>,
}

/// What to do with a result of the model.
#[derive(Debug, Clone, Copy, PartialEq, Eq, Structural)]
pub enum ResultAction {
    /// The result belongs to no pending batch.
    Ignore,
    /// Forward it to the batch's output; `finished` when it was the last.
    Forward { finished: bool },
}

/// The pending batches after a result for batch `token` came back: a
/// pending batch awaits one result less, and is forgotten once none is.
pub open spec fn result_step(pending: Map<u64, u64>, token: u64) -> Map<u64, u64> {
    if !pending.contains_key(token) {
        pending
    } else if pending[token] <= 1 {
        pending.remove(token)
    } else {
        pending.insert(token, (pending[token] - 1) as u64)
    }
}

impl BatchProcessor {
    /// A processor without pending batches, whose first token is zero.
    pub fn new() -> (r: Self)
        ensures
            r@.next_token == 0,
            r@.pending == Map::<u64, u64>::empty(),
    {
        BatchProcessor { next_token: 0, pending: HashMap::new() }
    }

    /// The number of results still awaited of batch `token`, if pending.
    pub fn pending_count(&self, token: u64) -> (r: Option<u64>)
        ensures
            r == (if self@.pending.contains_key(token) {
                Some(self@.pending[token])
            } else {
                None::<u64>
            }),
    {
        match self.pending.get(&token) {
            Some(c) => Some(*c),
            None => None,
        }
    }

    /// Takes a batch: it gets the next token (which then advances,
    /// wrapping), its files that can be labelled are sent to the model, the
    /// others get an error, and the batch waits for as many results as files
    /// were sent.
    pub fn new_batch(&mut self, files: Vec<FileFacts>) -> (r: BatchAccepted)
        ensures
            r.token == old(self)@.next_token,
            final(self)@.next_token == (if old(self)@.next_token == u64::MAX {
                0
            } else {
                old(self)@.next_token + 1
            }),
            r.to_process@.len() == sent_count(files@),
            forall|i: int| 0 <= i < r.to_process@.len() ==> (#[trigger] r.to_process@[i]).batch_token == r.token,
            r.to_process@.map_values(|t: ToProcess| (t.file_path_id, t.format)) == sent_items(files@),
            r.errors@ == batch_errors(files@),
            final(self)@.pending == old(self)@.pending.insert(r.token, sent_count(files@) as u64),
    {
        let token = self.next_token;
        self.next_token = self.next_token.wrapping_add(1);
        let mut to_process: Vec<ToProcess> = Vec::new();
        let mut errors: Vec<(i32, LabelerError)> = Vec::new();
        let mut read_errors: Vec<(i32, LabelerError)> = Vec::new();
        let ghost all = files@;
        let total = files.len();
        let mut rest = files;
        let mut i: usize = 0;
        while rest.len() > 0
            invariant
                i + rest@.len() == all.len(),
                all.len() == total,
                rest@ == all.subrange(i as int, all.len() as int),
                to_process@.len() == sent_count(all.subrange(0, i as int)),
                to_process@.len() <= i,
                forall|k: int| 0 <= k < to_process@.len() ==> (#[trigger] to_process@[k]).batch_token == token,
                to_process@.map_values(|t: ToProcess| (t.file_path_id, t.format)) == sent_items(all.subrange(0, i as int)),
                errors@ == errors_when(all.subrange(0, i as int), true),
                read_errors@ == errors_when(all.subrange(0, i as int), false),
            decreases rest.len(),
        {
            let f = rest.remove(0);
            proof {
                let s = all.subrange(0, i + 1);
                assert(s.drop_last() =~= all.subrange(0, i as int));
                assert(all[i as int] == f);
                assert(s.last() == f);
                assert(rest@ =~= all.subrange(i + 1, all.len() as int));
            }
            let id = f.file_path_id;
            let ghost fv = f;
            let ghost before = to_process@;
            match label_file(f) {
                Err(e) => {
                    let early = match e {
                        LabelerError::IsolatedFilePath(_) => true,
                        LabelerError::UnsupportedExtension(_, _) => true,
                        _ => false,
                    };
                    if early {
                        errors.push((id, e));
                    } else {
                        read_errors.push((id, e));
                    }
                },
                Ok(format) => {
                    to_process.push(ToProcess { batch_token: token, file_path_id: id, format });
                    proof {
                        assert(to_process@.map_values(|t: ToProcess| (t.file_path_id, t.format)) =~= before.map_values(
                            |t: ToProcess| (t.file_path_id, t.format),
                        ).push((id, format)));
                    }
                },
            }
            i = i + 1;
        }
        proof {
            assert(all.subrange(0, all.len() as int) =~= all);
        }
        errors.append(&mut read_errors);
        let count = to_process.len() as u64;
        self.pending.insert(token, count);
        BatchAccepted { token, to_process, errors }
    }

    /// Takes a result of the model for batch `token`: a pending batch
    /// awaits one result less, and is forgotten once none is awaited.
    pub fn on_result(&mut self, token: u64) -> (r: ResultAction)
        requires
            old(self)@.pending.contains_key(token) ==> old(self)@.pending[token] > 0,
        ensures
            final(self)@.next_token == old(self)@.next_token,
            final(self)@.pending == result_step(old(self)@.pending, token),
            r == (if old(self)@.pending.contains_key(token) {
                ResultAction::Forward { finished: old(self)@.pending[token] == 1 }
            } else {
                ResultAction::Ignore
            }),
    {
        let count = match self.pending.get(&token) {
            None => {
                return ResultAction::Ignore;
            },
            Some(c) => *c,
        };
        let left = count - 1;
        if left == 0 {
            self.pending.remove(&token);
        } else {
            self.pending.insert(token, left);
        }
        ResultAction::Forward { finished: left == 0 }
    }
}

/// The pending batches after `k` results for batch `token` came back.
pub open spec fn results_applied(pending: Map<u64, u64>, token: u64, k: nat) -> Map<u64, u64>
    decreases k,
{
    if k == 0 {
        pending
    } else {
        result_step(results_applied(pending, token, (k - 1) as nat), token)
    }
}

/// A batch that sent `n` files stays pending, awaiting `n - k` results,
/// while `k < n` of them came back, and is forgotten once all `n` did (a
/// batch that sent none stays pending).
pub proof fn lemma_batch_drains(pending: Map<u64, u64>, token: u64, k: nat)
    requires
        pending.contains_key(token),
        k <= pending[token],
    ensures
        k < pending[token] ==> results_applied(pending, token, k).contains_key(token)
            && results_applied(pending, token, k)[token] == pending[token] - k,
        0 < k == pending[token] ==> !results_applied(pending, token, k).contains_key(token),
    decreases k,
{
    if k > 0 {
        lemma_batch_drains(pending, token, (k - 1) as nat);
    }
}

} // verus!
