//! The file identifier's decisions: which content ids are looked up, which
//! file paths are linked to an object that already holds their content,
//! which get a new object, which new objects get media data, and the SQL
//! of the older identifier job that inserted files by content id.
use vstd::prelude::*;
use crate::text::{decimal, push_decimal, str_eq};

verus! {

/// A file path whose content was identified.
#[derive(Debug, Clone)]
pub struct IdentifiedFile {
    pub pub_id: u128,
    pub cas_id: String,
    pub kind: i32,
    pub extension: String,
    pub date_created: Option<i64>,
}

/// An object of the library, with the content ids of its file paths.
#[derive(Debug, Clone)]
pub struct ExistingObject {
    pub pub_id: u128,
    pub file_path_cas_ids: Vec<Option<String>>,
}

/// The content ids of some identified files, in order.
pub open spec fn cas_ids_of(files: Seq<IdentifiedFile>) -> Seq<Seq<char>> {
    files.map_values(|f: IdentifiedFile| f.cas_id@)
}

/// The texts of some strings, in order.
pub open spec fn texts(v: Seq<String>) -> Seq<Seq<char>> {
    v.map_values(|s: String| s@)
}

fn text_in(s: &Vec<String>, key: &str) -> (r: bool)
    ensures
        r == texts(s@).contains(key@),
{
    let mut i: usize = 0;
    while i < s.len()
        invariant
            i <= s@.len(),
            forall|j: int| 0 <= j < i ==> s@[j]@ != key@,
        decreases s.len() - i,
    {
        if str_eq(s[i].as_str(), key) {
            assert(texts(s@)[i as int] == key@);
            return true;
        }
        i = i + 1;
    }
    assert forall|j: int| 0 <= j < texts(s@).len() implies texts(s@)[j] != key@ by {
        assert(texts(s@)[j] == s@[j]@);
    }
    false
}

proof fn lemma_contains_push(s: Seq<Seq<char>>, v: Seq<char>, x: Seq<char>)
    ensures
        s.push(v).contains(x) <==> (s.contains(x) || x == v),
{
    if s.push(v).contains(x) {
        let k = choose|k: int| 0 <= k < s.push(v).len() && s.push(v)[k] == x;
        if k < s.len() {
            assert(s[k] == x);
        }
    }
    if s.contains(x) {
        let k = choose|k: int| 0 <= k < s.len() && s[k] == x;
        assert(s.push(v)[k] == x);
    }
    if x == v {
        assert(s.push(v)[s.len() as int] == x);
    }
}

/// The distinct content ids of the identified files, each once, in the
/// order they first occur.
pub fn unique_cas_ids(files: &Vec<IdentifiedFile>) -> (r: Vec<String>)
    ensures
        texts(r@).no_duplicates(),
        forall|c: Seq<char>| #[trigger] texts(r@).contains(c) <==> cas_ids_of(files@).contains(c),
{
    let mut r: Vec<String> = Vec::new();
    let mut i: usize = 0;
    while i < files.len()
        invariant
            i <= files@.len(),
            texts(r@).no_duplicates(),
            forall|c: Seq<char>| #[trigger]
                texts(r@).contains(c) <==> cas_ids_of(files@.subrange(0, i as int)).contains(c),
        decreases files.len() - i,
    {
        let c = &files[i].cas_id;
        let ghost before = texts(r@);
        proof {
            assert(cas_ids_of(files@.subrange(0, i + 1)) =~= cas_ids_of(files@.subrange(0, i as int)).push(c@));
        }
        let ghost ids = cas_ids_of(files@.subrange(0, i as int));
        if !text_in(&r, c.as_str()) {
            r.push(c.clone());
            proof {
                assert(texts(r@) =~= before.push(c@));
                assert forall|x: Seq<char>| #[trigger] texts(r@).contains(x) <==> ids.push(c@).contains(x) by {
                    lemma_contains_push(before, c@, x);
                    lemma_contains_push(ids, c@, x);
                }
                assert forall|a: int, b: int| 0 <= a < b < texts(r@).len() implies texts(r@)[a]
                    != texts(r@)[b] by {
                    if b == before.len() {
                        assert(before[a] == texts(r@)[a]);
                    } else {
                        assert(before[a] == texts(r@)[a]);
                        assert(before[b] == texts(r@)[b]);
                    }
                }
            }
        } else {
            proof {
                assert forall|x: Seq<char>| #[trigger] texts(r@).contains(x) <==> ids.push(c@).contains(x) by {
                    lemma_contains_push(ids, c@, x);
                }
            }
        }
        i = i + 1;
    }
    proof {
        assert(files@.subrange(0, files@.len() as int) =~= files@);
    }
    r
}

/// Whether a file path's content id is `cas`.
pub open spec fn is_cas(c: Option<String>, cas: Seq<char>) -> bool {
    match c {
        Some(s) => s@ == cas,
        None => false,
    }
}

/// Whether one of an object's file paths has content id `cas`.
pub open spec fn object_has_cas(o: ExistingObject, cas: Seq<char>) -> bool {
    exists|j: int| 0 <= j < o.file_path_cas_ids@.len() && is_cas(#[trigger] o.file_path_cas_ids@[j], cas)
}

/// The first object whose file paths hold content id `cas`, if any.
pub open spec fn object_for(cas: Seq<char>, objects: Seq<ExistingObject>) -> Option<u128>
    decreases objects.len(),
{
    if objects.len() == 0 {
        None
    } else if object_has_cas(objects[0], cas) {
        Some(objects[0].pub_id)
    } else {
        object_for(cas, objects.drop_first())
    }
}

/// Whether some object's file paths hold content id `cas`.
pub open spec fn cas_known(cas: Seq<char>, objects: Seq<ExistingObject>) -> bool {
    exists|i: int| 0 <= i < objects.len() && object_has_cas(#[trigger] objects[i], cas)
}

fn object_holds(o: &ExistingObject, cas: &str) -> (r: bool)
    ensures
        r == object_has_cas(*o, cas@),
{
    let mut j: usize = 0;
    while j < o.file_path_cas_ids.len()
        invariant
            j <= o.file_path_cas_ids@.len(),
            forall|k: int|
                0 <= k < j ==> !is_cas(#[trigger] o.file_path_cas_ids@[k], cas@),
        decreases o.file_path_cas_ids.len() - j,
    {
        match &o.file_path_cas_ids[j] {
            Some(s) => {
                if str_eq(s.as_str(), cas) {
                    return true;
                }
            },
            None => {},
        }
        j = j + 1;
    }
    false
}

/// The first object whose file paths hold content id `cas`.
pub fn find_object_for(cas: &str, objects: &Vec<ExistingObject>) -> (r: Option<u128>)
    ensures
        r == object_for(cas@, objects@),
{
    let mut i: usize = 0;
    assert(objects@.subrange(0, objects@.len() as int) =~= objects@);
    while i < objects.len()
        invariant
            i <= objects@.len(),
            object_for(cas@, objects@) == object_for(cas@, objects@.subrange(i as int, objects@.len() as int)),
        decreases objects.len() - i,
    {
        proof {
            let t = objects@.subrange(i as int, objects@.len() as int);
            assert(t.drop_first() =~= objects@.subrange(i + 1, objects@.len() as int));
            assert(t[0] == objects@[i as int]);
        }
        if object_holds(&objects[i], cas) {
            return Some(objects[i].pub_id);
        }
        i = i + 1;
    }
    None
}

/// A file is linked to an existing object exactly when some object's file
/// paths hold its content id.
pub proof fn lemma_linked_iff_known(cas: Seq<char>, objects: Seq<ExistingObject>)
    ensures
        object_for(cas, objects) is Some <==> cas_known(cas, objects),
    decreases objects.len(),
{
    if objects.len() > 0 {
        lemma_linked_iff_known(cas, objects.drop_first());
        if cas_known(cas, objects.drop_first()) {
            let i = choose|i: int|
                0 <= i < objects.drop_first().len() && object_has_cas(
                    #[trigger] objects.drop_first()[i],
                    cas,
                );
            assert(objects[i + 1] == objects.drop_first()[i]);
        }
        if cas_known(cas, objects) && !object_has_cas(objects[0], cas) {
            let i = choose|i: int| 0 <= i < objects.len() && object_has_cas(#[trigger] objects[i], cas);
            assert(objects.drop_first()[i - 1] == objects[i]);
        }
    }
}

/// The object each identified file is linked to, if one already holds its
/// content.
pub fn link_existing_objects(files: &Vec<IdentifiedFile>, objects: &Vec<ExistingObject>) -> (r: Vec<
    Option<u128>,
>)
    ensures
        r@.len() == files@.len(),
        forall|i: int| 0 <= i < files@.len() ==> #[trigger] r@[i] == object_for(files@[i].cas_id@, objects@),
{
    let mut r: Vec<Option<u128>> = Vec::new();
    let mut i: usize = 0;
    while i < files.len()
        invariant
            i <= files@.len(),
            r@.len() == i,
            forall|k: int| 0 <= k < i ==> #[trigger] r@[k] == object_for(files@[k].cas_id@, objects@),
        decreases files.len() - i,
    {
        let o = find_object_for(files[i].cas_id.as_str(), objects);
        r.push(o);
        i = i + 1;
    }
    r
}

/// The positions of the files whose content no object holds yet, in order.
pub open spec fn needing_new_object(files: Seq<IdentifiedFile>, objects: Seq<ExistingObject>) -> Seq<int>
    decreases files.len(),
{
    if files.len() == 0 {
        Seq::empty()
    } else {
        let rest = needing_new_object(files.drop_last(), objects);
        if cas_known(files.last().cas_id@, objects) {
            rest
        } else {
            rest.push(files.len() - 1)
        }
    }
}

/// The positions of the files that need a new object: those whose content
/// id no existing object's file paths hold.
pub fn files_requiring_new_object(files: &Vec<IdentifiedFile>, objects: &Vec<ExistingObject>) -> (r:
    Vec<usize>)
    ensures
        r@.map_values(|i: usize| i as int) == needing_new_object(files@, objects@),
{
    let mut r: Vec<usize> = Vec::new();
    let mut i: usize = 0;
    while i < files.len()
        invariant
            i <= files@.len(),
            r@.map_values(|i: usize| i as int) == needing_new_object(files@.subrange(0, i as int), objects@),
        decreases files.len() - i,
    {
        let linked = find_object_for(files[i].cas_id.as_str(), objects);
        proof {
            let s = files@.subrange(0, i + 1);
            assert(s.drop_last() =~= files@.subrange(0, i as int));
            assert(s.last() == files@[i as int]);
            lemma_linked_iff_known(files@[i as int].cas_id@, objects@);
        }
        let ghost before = r@;
        if linked.is_none() {
            r.push(i);
            proof {
                assert(r@.map_values(|i: usize| i as int) =~= before.map_values(|i: usize| i as int).push(i as int));
            }
        }
        i = i + 1;
    }
    proof {
        assert(files@.subrange(0, files@.len() as int) =~= files@);
    }
    r
}

/// The image extensions a file can have.
#[derive(Debug, Clone, Copy, PartialEq, Eq, Structural)]
pub enum ImageExtension {
    Jpg,
    Jpeg,
    Png,
    Apng,
    Gif,
    Bmp,
    Tiff,
    Webp,
    Svg,
    Ico,
    Heic,
    Heics,
    Heif,
    Heifs,
    Hif,
    Avif,
    Avci,
    Avcs,
    Raw,
}

/// Whether media data can be extracted from images of this extension.
pub open spec fn media_data_image(e: ImageExtension) -> bool {
    matches!(
        e,
        ImageExtension::Jpg | ImageExtension::Jpeg | ImageExtension::Png | ImageExtension::Tiff
            | ImageExtension::Webp | ImageExtension::Heic | ImageExtension::Heics
            | ImageExtension::Heif | ImageExtension::Heifs | ImageExtension::Avif
    )
}

/// Whether media data can be extracted from images of this extension.
pub fn can_generate_media_data_for_image(image_extension: &ImageExtension) -> (r: bool)
    ensures
        r == media_data_image(*image_extension),
{
    match image_extension {
        ImageExtension::Jpg | ImageExtension::Jpeg | ImageExtension::Png | ImageExtension::Tiff
        | ImageExtension::Webp | ImageExtension::Heic | ImageExtension::Heics
        | ImageExtension::Heif | ImageExtension::Heifs | ImageExtension::Avif => true,
        _ => false,
    }
}

/// The extension of file paths whose new object gets media data.
pub open spec fn media_data_extension(ext: Seq<char>) -> bool {
    ext == "jpg"@ || ext == "jpeg"@ || ext == "png"@ || ext == "tiff"@ || ext == "webp"@ || ext
        == "heic"@ || ext == "heics"@ || ext == "heif"@ || ext == "heifs"@ || ext == "avif"@
}

/// Whether the new object of a file path with extension `ext` gets media
/// data: the extension names an image media data can be extracted from.
pub fn needs_media_data(ext: &str) -> (r: bool)
    ensures
        r == media_data_extension(ext@),
{
    str_eq(ext, "jpg") || str_eq(ext, "jpeg") || str_eq(ext, "png") || str_eq(ext, "tiff")
        || str_eq(ext, "webp") || str_eq(ext, "heic") || str_eq(ext, "heics") || str_eq(ext, "heif")
        || str_eq(ext, "heifs") || str_eq(ext, "avif")
}

/// The name of an image extension, in lower case, as a file path holds it.
pub open spec fn image_extension_name(e: ImageExtension) -> Seq<char> {
    match e {
        ImageExtension::Jpg => "jpg"@,
        ImageExtension::Jpeg => "jpeg"@,
        ImageExtension::Png => "png"@,
        ImageExtension::Apng => "apng"@,
        ImageExtension::Gif => "gif"@,
        ImageExtension::Bmp => "bmp"@,
        ImageExtension::Tiff => "tiff"@,
        ImageExtension::Webp => "webp"@,
        ImageExtension::Svg => "svg"@,
        ImageExtension::Ico => "ico"@,
        ImageExtension::Heic => "heic"@,
        ImageExtension::Heics => "heics"@,
        ImageExtension::Heif => "heif"@,
        ImageExtension::Heifs => "heifs"@,
        ImageExtension::Hif => "hif"@,
        ImageExtension::Avif => "avif"@,
        ImageExtension::Avci => "avci"@,
        ImageExtension::Avcs => "avcs"@,
        ImageExtension::Raw => "raw"@,
    }
}

proof fn lemma_image_extension_texts()
    ensures
        "jpg"@.len() == 3 && "jpg"@[0] == 'j' && "jpg"@[1] == 'p' && "jpg"@[2] == 'g',
        "jpeg"@.len() == 4 && "jpeg"@[0] == 'j' && "jpeg"@[1] == 'p' && "jpeg"@[2] == 'e' && "jpeg"@[3] == 'g',
        "png"@.len() == 3 && "png"@[0] == 'p' && "png"@[1] == 'n' && "png"@[2] == 'g',
        "apng"@.len() == 4 && "apng"@[0] == 'a' && "apng"@[1] == 'p' && "apng"@[2] == 'n' && "apng"@[3] == 'g',
        "gif"@.len() == 3 && "gif"@[0] == 'g' && "gif"@[1] == 'i' && "gif"@[2] == 'f',
        "bmp"@.len() == 3 && "bmp"@[0] == 'b' && "bmp"@[1] == 'm' && "bmp"@[2] == 'p',
        "tiff"@.len() == 4 && "tiff"@[0] == 't' && "tiff"@[1] == 'i' && "tiff"@[2] == 'f' && "tiff"@[3] == 'f',
        "webp"@.len() == 4 && "webp"@[0] == 'w' && "webp"@[1] == 'e' && "webp"@[2] == 'b' && "webp"@[3] == 'p',
        "svg"@.len() == 3 && "svg"@[0] == 's' && "svg"@[1] == 'v' && "svg"@[2] == 'g',
        "ico"@.len() == 3 && "ico"@[0] == 'i' && "ico"@[1] == 'c' && "ico"@[2] == 'o',
        "heic"@.len() == 4 && "heic"@[0] == 'h' && "heic"@[1] == 'e' && "heic"@[2] == 'i' && "heic"@[3] == 'c',
        "heics"@.len() == 5 && "heics"@[0] == 'h' && "heics"@[1] == 'e' && "heics"@[2] == 'i' && "heics"@[3] == 'c' && "heics"@[4] == 's',
        "heif"@.len() == 4 && "heif"@[0] == 'h' && "heif"@[1] == 'e' && "heif"@[2] == 'i' && "heif"@[3] == 'f',
        "heifs"@.len() == 5 && "heifs"@[0] == 'h' && "heifs"@[1] == 'e' && "heifs"@[2] == 'i' && "heifs"@[3] == 'f' && "heifs"@[4] == 's',
        "hif"@.len() == 3 && "hif"@[0] == 'h' && "hif"@[1] == 'i' && "hif"@[2] == 'f',
        "avif"@.len() == 4 && "avif"@[0] == 'a' && "avif"@[1] == 'v' && "avif"@[2] == 'i' && "avif"@[3] == 'f',
        "avci"@.len() == 4 && "avci"@[0] == 'a' && "avci"@[1] == 'v' && "avci"@[2] == 'c' && "avci"@[3] == 'i',
        "avcs"@.len() == 4 && "avcs"@[0] == 'a' && "avcs"@[1] == 'v' && "avcs"@[2] == 'c' && "avcs"@[3] == 's',
        "raw"@.len() == 3 && "raw"@[0] == 'r' && "raw"@[1] == 'a' && "raw"@[2] == 'w',
{
    reveal_strlit("jpg");
    reveal_strlit("jpeg");
    reveal_strlit("png");
    reveal_strlit("apng");
    reveal_strlit("gif");
    reveal_strlit("bmp");
    reveal_strlit("tiff");
    reveal_strlit("webp");
    reveal_strlit("svg");
    reveal_strlit("ico");
    reveal_strlit("heic");
    reveal_strlit("heics");
    reveal_strlit("heif");
    reveal_strlit("heifs");
    reveal_strlit("hif");
    reveal_strlit("avif");
    reveal_strlit("avci");
    reveal_strlit("avcs");
    reveal_strlit("raw");
}

/// A new object gets media data exactly when its file path's extension
/// names an image media data is extracted from: JPEG (`jpg`, `jpeg`), PNG,
/// TIFF, WebP, HEIC, HEIF (and their sequences) and AVIF images, and no
/// other extension.
pub proof fn lemma_media_data_extensions()
    ensures
        forall|e: ImageExtension| #[trigger] media_data_extension(image_extension_name(e)) <==> (e == ImageExtension::Jpg || e == ImageExtension::Jpeg || e == ImageExtension::Png || e == ImageExtension::Tiff || e == ImageExtension::Webp || e == ImageExtension::Heic || e == ImageExtension::Heics || e == ImageExtension::Heif || e == ImageExtension::Heifs || e == ImageExtension::Avif),
        forall|e: ImageExtension| #[trigger] media_data_extension(image_extension_name(e)) <==> media_data_image(e),
        forall|ext: Seq<char>| #[trigger] media_data_extension(ext) ==> exists|e: ImageExtension|
            image_extension_name(e) == ext && media_data_image(e),
{
    lemma_image_extension_texts();
    assert forall|ext: Seq<char>| #[trigger] media_data_extension(ext) implies exists|e: ImageExtension|
        image_extension_name(e) == ext && media_data_image(e) by {
        if ext == "jpg"@ {
            assert(image_extension_name(ImageExtension::Jpg) == ext);
        }
        if ext == "jpeg"@ {
            assert(image_extension_name(ImageExtension::Jpeg) == ext);
        }
        if ext == "png"@ {
            assert(image_extension_name(ImageExtension::Png) == ext);
        }
        if ext == "tiff"@ {
            assert(image_extension_name(ImageExtension::Tiff) == ext);
        }
        if ext == "webp"@ {
            assert(image_extension_name(ImageExtension::Webp) == ext);
        }
        if ext == "heic"@ {
            assert(image_extension_name(ImageExtension::Heic) == ext);
        }
        if ext == "heics"@ {
            assert(image_extension_name(ImageExtension::Heics) == ext);
        }
        if ext == "heif"@ {
            assert(image_extension_name(ImageExtension::Heif) == ext);
        }
        if ext == "heifs"@ {
            assert(image_extension_name(ImageExtension::Heifs) == ext);
        }
        if ext == "avif"@ {
            assert(image_extension_name(ImageExtension::Avif) == ext);
        }
    }
}

/// The cursor after processing a chunk of file paths: the id of its last
/// row, or the current cursor for an empty chunk.
pub fn next_cursor(ids: &Vec<i32>, cursor: i32) -> (r: i32)
    ensures
        r == (if ids@.len() == 0 {
            cursor
        } else {
            ids@.last()
        }),
{
    if ids.len() == 0 {
        cursor
    } else {
        ids[ids.len() - 1]
    }
}

/// A file created by the identifier job: its row id and content id.
#[derive(Debug, Clone)]
pub struct FileCreated {
    pub id: i32,
    pub cas_id: String,
}

/// The job that gives orphan file paths a file by content id.
#[derive(Debug)]
pub struct FileIdentifierJob;

/// A file path row as the identifier job reads it.
#[derive(Debug, Clone)]
pub struct FilePathRow {
    pub id: i32,
    pub temp_cas_id: Option<String>,
}

/// The number of tasks of `total` orphan file paths: chunks of a hundred.
pub fn task_count(total: usize) -> (r: usize)
    ensures
        r * 100 >= total,
        r * 100 < total + 100,
{
    let r = total / 100 + if total % 100 != 0 {
        1
    } else {
        0
    };
    r
}

/// The values of the row inserted for a file path: its content id, quoted,
/// and a size of zero.
pub open spec fn file_values(cas_id: Seq<char>) -> Seq<char> {
    "(\""@ + cas_id + "\",\"0\")"@
}

/// The values of the row inserted for a file path with a content id.
pub fn prepare_file_values(file_path: &FilePathRow) -> (r: String)
    requires
        file_path.temp_cas_id is Some,
    ensures
        r@ == file_values(file_path.temp_cas_id->0@),
{
    let mut r = String::from_str("(\"");
    match &file_path.temp_cas_id {
        Some(c) => r.append(c.as_str()),
        None => {},
    }
    r.append("\",\"0\")");
    r
}

/// The rows inserted for a chunk of file paths: one for each path with a
/// content id, in order.
pub open spec fn chunk_rows(paths: Seq<FilePathRow>) -> Seq<Seq<char>>
    decreases paths.len(),
{
    if paths.len() == 0 {
        Seq::empty()
    } else {
        let rest = chunk_rows(paths.drop_last());
        match paths.last().temp_cas_id {
            Some(c) => rest.push(file_values(c@)),
            None => rest,
        }
    }
}

/// The rows inserted for a chunk of file paths.
pub fn orphan_rows(paths: &Vec<FilePathRow>) -> (r: Vec<String>)
    ensures
        texts(r@) == chunk_rows(paths@),
{
    let mut r: Vec<String> = Vec::new();
    let mut i: usize = 0;
    while i < paths.len()
        invariant
            i <= paths@.len(),
            texts(r@) == chunk_rows(paths@.subrange(0, i as int)),
        decreases paths.len() - i,
    {
        proof {
            assert(paths@.subrange(0, i + 1).drop_last() =~= paths@.subrange(0, i as int));
        }
        if paths[i].temp_cas_id.is_some() {
            let row = prepare_file_values(&paths[i]);
            let ghost before = texts(r@);
            r.push(row);
            proof {
                assert(texts(r@) =~= before.push(row@));
            }
        }
        i = i + 1;
    }
    proof {
        assert(paths@.subrange(0, paths@.len() as int) =~= paths@);
    }
    r
}

/// Texts joined with `sep` between them.
pub open spec fn joined_with(ss: Seq<Seq<char>>, sep: Seq<char>) -> Seq<char>
    decreases ss.len(),
{
    if ss.len() == 0 {
        Seq::empty()
    } else if ss.len() == 1 {
        ss[0]
    } else {
        joined_with(ss.drop_last(), sep) + sep + ss.last()
    }
}

/// The query inserting the rows of a chunk.
pub open spec fn insert_files_text(rows: Seq<Seq<char>>) -> Seq<char> {
    "INSERT INTO files (cas_id, size_in_bytes) VALUES "@ + joined_with(rows, ", "@)
        + " ON CONFLICT (cas_id) DO NOTHING RETURNING id, cas_id"@
}

/// The query inserting the rows of a chunk, which returns the files created.
pub fn insert_files_query(rows: &Vec<String>) -> (r: String)
    ensures
        r@ == insert_files_text(texts(rows@)),
{
    let mut joined = String::new();
    let mut i: usize = 0;
    while i < rows.len()
        invariant
            i <= rows@.len(),
            joined@ == joined_with(texts(rows@.subrange(0, i as int)), ", "@),
        decreases rows.len() - i,
    {
        proof {
            assert(texts(rows@.subrange(0, i + 1)).drop_last() =~= texts(rows@.subrange(0, i as int)));
            assert(texts(rows@.subrange(0, i + 1)).last() == rows@[i as int]@);
        }
        if i > 0 {
            joined.append(", ");
        }
        joined.append(rows[i].as_str());
        proof {
            if i == 0 {
                assert(texts(rows@.subrange(0, 1))[0] == rows@[0]@);
                assert(joined@ =~= rows@[0]@);
            }
        }
        i = i + 1;
    }
    proof {
        assert(rows@.subrange(0, rows@.len() as int) =~= rows@);
    }
    let mut r = String::from_str("INSERT INTO files (cas_id, size_in_bytes) VALUES ");
    r.append(joined.as_str());
    r.append(" ON CONFLICT (cas_id) DO NOTHING RETURNING id, cas_id");
    r
}

/// The decimal text of an integer, with a minus sign when negative.
pub open spec fn signed_decimal(n: int) -> Seq<char> {
    if n < 0 {
        "-"@ + decimal((-n) as nat)
    } else {
        decimal(n as nat)
    }
}

pub(crate) fn push_signed(out: &mut String, n: i32)
    ensures
        final(out)@ == old(out)@ + signed_decimal(n as int),
{
    if n < 0 {
        out.append("-");
        let m: i64 = -(n as i64);
        push_decimal(out, m as u128);
    } else {
        push_decimal(out, n as u128);
    }
}

/// The statement giving the file paths of a created file's content id that file.
pub open spec fn update_file_path_text(id: int, cas_id: Seq<char>) -> Seq<char> {
    "UPDATE file_paths SET file_id = \""@ + signed_decimal(id) + "\" WHERE temp_cas_id = \""@ + cas_id
        + "\""@
}

/// The statement giving the file paths of a created file's content id that file.
pub fn update_file_path_query(file: &FileCreated) -> (r: String)
    ensures
        r@ == update_file_path_text(file.id as int, file.cas_id@),
{
    let mut r = String::from_str("UPDATE file_paths SET file_id = \"");
    push_signed(&mut r, file.id);
    r.append("\" WHERE temp_cas_id = \"");
    r.append(file.cas_id.as_str());
    r.append("\"");
    r
}

/// The progress message after `completed` of `total` tasks.
pub fn progress_message(completed: usize, total: usize) -> (r: String)
    ensures
        r@ == "Processed "@ + decimal(completed as nat) + " of "@ + decimal(total as nat)
            + " orphan files"@,
{
    let mut r = String::from_str("Processed ");
    push_decimal(&mut r, completed as u128);
    r.append(" of ");
    push_decimal(&mut r, total as u128);
    r.append(" orphan files");
    r
}


/// Whether a content id is generated for a file of `len` bytes: not for an
/// empty file, whose content identifies nothing.
pub fn generates_cas_id(len: u64) -> (r: bool)
    ensures
        r == (len != 0),
{
    len != 0
}

} // verus!
