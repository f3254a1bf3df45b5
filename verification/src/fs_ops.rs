//! File system operations on objects: the decryptor job's choices (where
//! the decrypted file goes, where its key comes from), the file paths of
//! the context menu, the explorer's objects, the rows the indexer saves,
//! and where a directory listing finds local thumbnails.
use vstd::prelude::*;
use crate::text::{push_decimal, str_eq, decimal};
use crate::file_identifier::{push_signed, signed_decimal};

verus! {

/// Whether a path names a file or a directory.
#[derive(Debug, Clone, Copy, PartialEq, Eq, Structural)]
pub enum ObjectType {
    File,
    Directory,
}

/// What the context menu knows of a file path: its id, its materialized
/// path, and where it is on disk.
#[derive(Debug, Clone)]
pub struct FsInfo {
    pub path_id: i32,
    pub materialized_path: String,
    pub fs_path: String,
}

/// Why a job could not go on.
#[derive(Debug, Clone, PartialEq, Eq)]
pub enum JobError {
    MissingData { value: String },
    JobDataNotFound(String),
}

/// Where a file path of a location is on disk: the location's local path
/// joined with the file path's materialized path; an error when the
/// location has no local path.
pub fn context_menu_fs_path(location_path: Option<&str>, materialized_path: &str) -> (r: Result<String, JobError>)
    ensures
        match location_path {
            None => r matches Err(JobError::MissingData { value }) && value@ == "path when cast as `PathBuf`"@,
            Some(p) => r matches Ok(s) && s@ == (if p@.len() > 0 && p@.last() == '/' {
                p@ + materialized_path@
            } else {
                p@ + "/"@ + materialized_path@
            }),
        },
{
    match location_path {
        None => Err(JobError::MissingData { value: String::from_str("path when cast as `PathBuf`") }),
        Some(p) => {
            let mut s = String::from_str(p);
            let n = p.unicode_len();
            if !(n > 0 && p.get_char(n - 1) == '/') {
                s.append("/");
            }
            s.append(materialized_path);
            Ok(s)
        },
    }
}

/// The decryptor job (it has no state of its own).
#[derive(Debug)]
pub struct FileDecryptorJob;

/// The decryptor job's state.
#[derive(Debug)]
pub struct FileDecryptorJobState {}

/// What starts a decryptor job.
#[derive(Debug, Clone)]
pub struct FileDecryptorJobInit {
    pub location_id: i32,
    pub path_id: i32,
    pub mount_associated_key: bool,
    pub output_path: Option<String>,
    pub password: Option<String>,
    pub save_to_library: Option<bool>,
}

/// The one step of a decryptor job: the file to decrypt.
#[derive(Debug, Clone)]
pub struct FileDecryptorJobStep {
    pub fs_info: FsInfo,
}

/// The extension of encrypted files.
pub open spec fn bytes_ext() -> Seq<char> {
    "bytes"@
}

/// The position of the dot that starts the extension of a file name, or -1:
/// the last dot, unless the name starts with it and has no other.
pub open spec fn extension_dot(name: Seq<char>) -> int
    decreases name.len(),
{
    if name.len() <= 1 {
        -1
    } else if name.last() == '.' {
        name.len() - 1
    } else {
        extension_dot(name.drop_last())
    }
}

fn find_extension_dot(name: &str) -> (r: Option<usize>)
    ensures
        match r {
            Some(i) => i as int == extension_dot(name@) && 0 < i < name@.len(),
            None => extension_dot(name@) < 0,
        },
{
    let n = name.unicode_len();
    let mut k: usize = n;
    assert(name@.subrange(0, n as int) =~= name@);
    while k > 1
        invariant
            k <= n,
            n == name@.len(),
            extension_dot(name@) == extension_dot(name@.subrange(0, k as int)),
        decreases k,
    {
        proof {
            assert(name@.subrange(0, k as int).drop_last() =~= name@.subrange(0, k - 1));
        }
        if name.get_char(k - 1) == '.' {
            return Some(k - 1);
        }
        k = k - 1;
    }
    proof {
        if n >= 1 {
            assert(name@.subrange(0, k as int).len() <= 1);
        }
    }
    None
}

/// The name of the decrypted file for an encrypted file named `name`:
/// its `bytes` extension is dropped; any other extension, or none, becomes
/// `decrypted`.
pub open spec fn decrypted_name(name: Seq<char>) -> Seq<char> {
    let d = extension_dot(name);
    if d < 0 {
        name + ".decrypted"@
    } else if name.subrange(d + 1, name.len() as int) == bytes_ext() {
        name.subrange(0, d)
    } else {
        name.subrange(0, d) + ".decrypted"@
    }
}

/// Where the decrypted file goes: the output path asked for, else the
/// encrypted file's name with its extension replaced.
pub fn decrypt_output_name(output_path: Option<String>, file_name: &str) -> (r: String)
    ensures
        r@ == match output_path {
            Some(p) => p@,
            None => decrypted_name(file_name@),
        },
{
    match output_path {
        Some(p) => p,
        None => {
            let n = file_name.unicode_len();
            match find_extension_dot(file_name) {
                None => {
                    let mut r = String::from_str(file_name);
                    r.append(".decrypted");
                    r
                },
                Some(d) => {
                    let stem = file_name.substring_char(0, d);
                    let ext = file_name.substring_char(d + 1, n);
                    if str_eq(ext, "bytes") {
                        String::from_str(stem)
                    } else {
                        let mut r = String::from_str(stem);
                        r.append(".decrypted");
                        r
                    }
                },
            }
        },
    }
}

/// Where the decryptor finds the key of a file.
#[derive(Debug, Clone, Copy, PartialEq, Eq, Structural)]
pub enum KeySource {
    /// From the password given, saving it to the library's keystore or not.
    Password { save_to_library: bool },
    /// From the library's keystore, first mounting the keys of the file's
    /// keyslots or not.
    Keystore { mount_associated_key: bool },
}

/// Where the key of the file comes from: a password requires saying
/// whether to save it to the library.
pub fn decrypt_key_source(init: &FileDecryptorJobInit) -> (r: Result<KeySource, JobError>)
    ensures
        match init.password {
            Some(_) => match init.save_to_library {
                Some(s) => r == Ok::<KeySource, JobError>(KeySource::Password { save_to_library: s }),
                None => r matches Err(JobError::JobDataNotFound(m)) && m@
                    == "Password decryption selected, but save to library boolean was not included"@,
            },
            None => r == Ok::<KeySource, JobError>(
                KeySource::Keystore { mount_associated_key: init.mount_associated_key },
            ),
        },
{
    match &init.password {
        Some(_) => match init.save_to_library {
            Some(s) => Ok(KeySource::Password { save_to_library: s }),
            None => Err(
                JobError::JobDataNotFound(
                    String::from_str(
                        "Password decryption selected, but save to library boolean was not included",
                    ),
                ),
            ),
        },
        None => Ok(KeySource::Keystore { mount_associated_key: init.mount_associated_key }),
    }
}

/// An object or a file path, as the explorer shows it.
#[derive(Debug, Clone, Copy, PartialEq, Eq, Structural)]
pub enum ObjectData {
    Object(i32),
    Path(i32),
}

/// What the explorer gets when it looks at objects.
#[derive(Debug, Clone)]
pub struct ObjectsForExplorer {
    pub objects: Vec<ObjectData>,
}

/// The number of file paths one batch of the indexer saved.
#[derive(Debug, Clone, Copy, PartialEq, Eq, Structural)]
pub struct SaveBatchTaskOutput {
    pub saved_count: i64,
}

/// The fields of a file path row the indexer saves and synchronises, in order.
pub open spec fn saved_fields() -> Seq<Seq<char>> {
    seq![
        "location"@,
        "materialized_path"@,
        "name"@,
        "is_dir"@,
        "extension"@,
        "size_in_bytes_bytes"@,
        "inode"@,
        "date_created"@,
        "date_modified"@,
        "date_indexed"@,
        "hidden"@,
    ]
}

/// The fields of a file path row the indexer saves and synchronises.
pub fn save_task_fields() -> (r: Vec<&'static str>)
    ensures
        r@.map_values(|f: &str| f@) == saved_fields(),
{
    let r = vec![
        "location",
        "materialized_path",
        "name",
        "is_dir",
        "extension",
        "size_in_bytes_bytes",
        "inode",
        "date_created",
        "date_modified",
        "date_indexed",
        "hidden",
    ];
    proof {
        assert(r@.map_values(|f: &str| f@) =~= saved_fields());
    }
    r
}

/// The eight bytes of `n`, most significant first.
pub open spec fn big_endian(n: u64) -> Seq<u8> {
    Seq::new(8, |i: int| ((n as int / pow256(7 - i)) % 256) as u8)
}

/// 256 to the power `k`.
pub open spec fn pow256(k: int) -> int
    decreases k,
{
    if k <= 0 {
        1
    } else {
        256 * pow256(k - 1)
    }
}

proof fn lemma_pow256_pos(k: int)
    ensures
        pow256(k) >= 1,
    decreases k,
{
    if k > 0 {
        lemma_pow256_pos(k - 1);
    }
}

/// A size as the database stores it: its eight bytes, most significant first.
pub fn size_to_db(size: u64) -> (r: Vec<u8>)
    ensures
        r@ == big_endian(size),
{
    let mut r: Vec<u8> = Vec::new();
    let mut i: usize = 0;
    let mut div: u64 = 72057594037927936;
    proof {
        reveal_with_fuel(pow256, 8);
    }
    while i < 8
        invariant
            i <= 8,
            i < 8 ==> div as int == pow256(7 - i as int),
            r@.len() == i,
            forall|k: int| 0 <= k < i ==> r@[k] == ((size as int / pow256(7 - k)) % 256) as u8,
        decreases 8 - i,
    {
        proof {
            lemma_pow256_pos(7 - i as int);
        }
        let b = ((size / div) % 256) as u8;
        r.push(b);
        proof {
            assert(pow256(7 - i as int) == div);
        }
        if i < 7 {
            proof {
                assert(pow256(7 - i as int) == 256 * pow256(6 - i as int));
            }
            div = div / 256;
        }
        i = i + 1;
    }
    proof {
        assert(r@ =~= big_endian(size));
    }
    r
}

/// Where a directory listing finds the local thumbnail of a file path with
/// content `cas_id` in location `location_id`, under the data directory.
pub fn local_thumbnail_path(data_path: &str, location_id: i32, cas_id: &str) -> (r: String)
    ensures
        r@ == data_path@ + "/thumbnails/"@ + signed_decimal(location_id as int) + "/"@ + cas_id@
            + ".webp"@,
{
    let mut r = String::from_str(data_path);
    r.append("/thumbnails/");
    push_signed(&mut r, location_id);
    r.append("/");
    r.append(cas_id);
    r.append(".webp");
    r
}

} // verus!
