//! How the custom URI server answers a request for a file: the content type
//! chosen from the extension, the ETag and `304 Not Modified` handling, and
//! byte ranges.
use vstd::prelude::*;
use crate::text::{decimal, push_decimal, str_eq};
use crate::library::{parse_uuid, uuid_parse};
use crate::migrate::{integer_value, is_integer_text, parse_i64};

verus! {

/// At most this many bytes of a file are read to guess its text encoding.
pub const MAX_TEXT_READ_LENGTH: usize = 10240;

/// The content type of an extension whose files are not served as text, or
/// none for text. Two video types are left out on macOS, where they break
/// video rendering.
pub open spec fn binary_mime(ext: Seq<char>, macos: bool) -> Option<Seq<char>> {
    if ext == "aac"@ {
        Some("audio/aac"@)
    } else if ext == "mid"@ || ext == "midi"@ {
        Some("audio/midi, audio/x-midi"@)
    } else if ext == "mp3"@ {
        Some("audio/mpeg"@)
    } else if ext == "m4a"@ {
        Some("audio/mp4"@)
    } else if ext == "oga"@ {
        Some("audio/ogg"@)
    } else if ext == "opus"@ {
        Some("audio/opus"@)
    } else if ext == "wav"@ {
        Some("audio/wav"@)
    } else if ext == "weba"@ {
        Some("audio/webm"@)
    } else if ext == "avi"@ {
        Some("video/x-msvideo"@)
    } else if ext == "mp4"@ || ext == "m4v"@ {
        Some("video/mp4"@)
    } else if !macos && ext == "ts"@ {
        Some("video/mp2t"@)
    } else if !macos && ext == "mpeg"@ {
        Some("video/mpeg"@)
    } else if ext == "ogv"@ {
        Some("video/ogg"@)
    } else if ext == "webm"@ {
        Some("video/webm"@)
    } else if ext == "3gp"@ {
        Some("video/3gpp"@)
    } else if ext == "3g2"@ {
        Some("video/3gpp2"@)
    } else if ext == "mov"@ {
        Some("video/quicktime"@)
    } else if ext == "bmp"@ {
        Some("image/bmp"@)
    } else if ext == "gif"@ {
        Some("image/gif"@)
    } else if ext == "ico"@ {
        Some("image/vnd.microsoft.icon"@)
    } else if ext == "jpeg"@ || ext == "jpg"@ {
        Some("image/jpeg"@)
    } else if ext == "png"@ {
        Some("image/png"@)
    } else if ext == "svg"@ {
        Some("image/svg+xml"@)
    } else if ext == "tif"@ || ext == "tiff"@ {
        Some("image/tiff"@)
    } else if ext == "webp"@ {
        Some("image/webp"@)
    } else if ext == "pdf"@ {
        Some("application/pdf"@)
    } else if ext == "heif"@ || ext == "heifs"@ {
        Some("image/heif,image/heif-sequence"@)
    } else if ext == "heic"@ || ext == "heics"@ {
        Some("image/heic,image/heic-sequence"@)
    } else if ext == "avif"@ || ext == "avci"@ || ext == "avcs"@ {
        Some("image/avif"@)
    } else {
        None
    }
}

/// The content type of a file with extension `ext` that is not served as
/// text, or none when it is served as text.
pub fn binary_mime_type(ext: &str, macos: bool) -> (r: Option<&'static str>)
    ensures
        match r {
            Some(m) => binary_mime(ext@, macos) == Some(m@),
            None => binary_mime(ext@, macos) is None,
        },
{
    if str_eq(ext, "aac") {
        Some("audio/aac")
    } else if str_eq(ext, "mid") || str_eq(ext, "midi") {
        Some("audio/midi, audio/x-midi")
    } else if str_eq(ext, "mp3") {
        Some("audio/mpeg")
    } else if str_eq(ext, "m4a") {
        Some("audio/mp4")
    } else if str_eq(ext, "oga") {
        Some("audio/ogg")
    } else if str_eq(ext, "opus") {
        Some("audio/opus")
    } else if str_eq(ext, "wav") {
        Some("audio/wav")
    } else if str_eq(ext, "weba") {
        Some("audio/webm")
    } else if str_eq(ext, "avi") {
        Some("video/x-msvideo")
    } else if str_eq(ext, "mp4") || str_eq(ext, "m4v") {
        Some("video/mp4")
    } else if !macos && str_eq(ext, "ts") {
        Some("video/mp2t")
    } else if !macos && str_eq(ext, "mpeg") {
        Some("video/mpeg")
    } else if str_eq(ext, "ogv") {
        Some("video/ogg")
    } else if str_eq(ext, "webm") {
        Some("video/webm")
    } else if str_eq(ext, "3gp") {
        Some("video/3gpp")
    } else if str_eq(ext, "3g2") {
        Some("video/3gpp2")
    } else if str_eq(ext, "mov") {
        Some("video/quicktime")
    } else if str_eq(ext, "bmp") {
        Some("image/bmp")
    } else if str_eq(ext, "gif") {
        Some("image/gif")
    } else if str_eq(ext, "ico") {
        Some("image/vnd.microsoft.icon")
    } else if str_eq(ext, "jpeg") || str_eq(ext, "jpg") {
        Some("image/jpeg")
    } else if str_eq(ext, "png") {
        Some("image/png")
    } else if str_eq(ext, "svg") {
        Some("image/svg+xml")
    } else if str_eq(ext, "tif") || str_eq(ext, "tiff") {
        Some("image/tiff")
    } else if str_eq(ext, "webp") {
        Some("image/webp")
    } else if str_eq(ext, "pdf") {
        Some("application/pdf")
    } else if str_eq(ext, "heif") || str_eq(ext, "heifs") {
        Some("image/heif,image/heif-sequence")
    } else if str_eq(ext, "heic") || str_eq(ext, "heics") {
        Some("image/heic,image/heic-sequence")
    } else if str_eq(ext, "avif") || str_eq(ext, "avci") || str_eq(ext, "avcs") {
        Some("image/avif")
    } else {
        None
    }
}

/// The characters of the extensions the server knows as binary.
proof fn lemma_binary_extension_texts()
    ensures
        "aac"@.len() == 3 && "aac"@[0] == 'a' && "aac"@[1] == 'a' && "aac"@[2] == 'c',
        "mid"@.len() == 3 && "mid"@[0] == 'm' && "mid"@[1] == 'i' && "mid"@[2] == 'd',
        "midi"@.len() == 4 && "midi"@[0] == 'm' && "midi"@[1] == 'i' && "midi"@[2] == 'd' && "midi"@[3] == 'i',
        "mp3"@.len() == 3 && "mp3"@[0] == 'm' && "mp3"@[1] == 'p' && "mp3"@[2] == '3',
        "m4a"@.len() == 3 && "m4a"@[0] == 'm' && "m4a"@[1] == '4' && "m4a"@[2] == 'a',
        "oga"@.len() == 3 && "oga"@[0] == 'o' && "oga"@[1] == 'g' && "oga"@[2] == 'a',
        "opus"@.len() == 4 && "opus"@[0] == 'o' && "opus"@[1] == 'p' && "opus"@[2] == 'u' && "opus"@[3] == 's',
        "wav"@.len() == 3 && "wav"@[0] == 'w' && "wav"@[1] == 'a' && "wav"@[2] == 'v',
        "weba"@.len() == 4 && "weba"@[0] == 'w' && "weba"@[1] == 'e' && "weba"@[2] == 'b' && "weba"@[3] == 'a',
        "avi"@.len() == 3 && "avi"@[0] == 'a' && "avi"@[1] == 'v' && "avi"@[2] == 'i',
        "mp4"@.len() == 3 && "mp4"@[0] == 'm' && "mp4"@[1] == 'p' && "mp4"@[2] == '4',
        "m4v"@.len() == 3 && "m4v"@[0] == 'm' && "m4v"@[1] == '4' && "m4v"@[2] == 'v',
        "ts"@.len() == 2 && "ts"@[0] == 't' && "ts"@[1] == 's',
        "mpeg"@.len() == 4 && "mpeg"@[0] == 'm' && "mpeg"@[1] == 'p' && "mpeg"@[2] == 'e' && "mpeg"@[3] == 'g',
        "ogv"@.len() == 3 && "ogv"@[0] == 'o' && "ogv"@[1] == 'g' && "ogv"@[2] == 'v',
        "webm"@.len() == 4 && "webm"@[0] == 'w' && "webm"@[1] == 'e' && "webm"@[2] == 'b' && "webm"@[3] == 'm',
        "3gp"@.len() == 3 && "3gp"@[0] == '3' && "3gp"@[1] == 'g' && "3gp"@[2] == 'p',
        "3g2"@.len() == 3 && "3g2"@[0] == '3' && "3g2"@[1] == 'g' && "3g2"@[2] == '2',
        "mov"@.len() == 3 && "mov"@[0] == 'm' && "mov"@[1] == 'o' && "mov"@[2] == 'v',
        "bmp"@.len() == 3 && "bmp"@[0] == 'b' && "bmp"@[1] == 'm' && "bmp"@[2] == 'p',
        "gif"@.len() == 3 && "gif"@[0] == 'g' && "gif"@[1] == 'i' && "gif"@[2] == 'f',
        "ico"@.len() == 3 && "ico"@[0] == 'i' && "ico"@[1] == 'c' && "ico"@[2] == 'o',
        "jpeg"@.len() == 4 && "jpeg"@[0] == 'j' && "jpeg"@[1] == 'p' && "jpeg"@[2] == 'e' && "jpeg"@[3] == 'g',
        "jpg"@.len() == 3 && "jpg"@[0] == 'j' && "jpg"@[1] == 'p' && "jpg"@[2] == 'g',
        "png"@.len() == 3 && "png"@[0] == 'p' && "png"@[1] == 'n' && "png"@[2] == 'g',
        "svg"@.len() == 3 && "svg"@[0] == 's' && "svg"@[1] == 'v' && "svg"@[2] == 'g',
        "tif"@.len() == 3 && "tif"@[0] == 't' && "tif"@[1] == 'i' && "tif"@[2] == 'f',
        "tiff"@.len() == 4 && "tiff"@[0] == 't' && "tiff"@[1] == 'i' && "tiff"@[2] == 'f' && "tiff"@[3] == 'f',
        "webp"@.len() == 4 && "webp"@[0] == 'w' && "webp"@[1] == 'e' && "webp"@[2] == 'b' && "webp"@[3] == 'p',
        "pdf"@.len() == 3 && "pdf"@[0] == 'p' && "pdf"@[1] == 'd' && "pdf"@[2] == 'f',
        "heif"@.len() == 4 && "heif"@[0] == 'h' && "heif"@[1] == 'e' && "heif"@[2] == 'i' && "heif"@[3] == 'f',
        "heifs"@.len() == 5 && "heifs"@[0] == 'h' && "heifs"@[1] == 'e' && "heifs"@[2] == 'i' && "heifs"@[3] == 'f' && "heifs"@[4] == 's',
        "heic"@.len() == 4 && "heic"@[0] == 'h' && "heic"@[1] == 'e' && "heic"@[2] == 'i' && "heic"@[3] == 'c',
        "heics"@.len() == 5 && "heics"@[0] == 'h' && "heics"@[1] == 'e' && "heics"@[2] == 'i' && "heics"@[3] == 'c' && "heics"@[4] == 's',
        "avif"@.len() == 4 && "avif"@[0] == 'a' && "avif"@[1] == 'v' && "avif"@[2] == 'i' && "avif"@[3] == 'f',
        "avci"@.len() == 4 && "avci"@[0] == 'a' && "avci"@[1] == 'v' && "avci"@[2] == 'c' && "avci"@[3] == 'i',
        "avcs"@.len() == 4 && "avcs"@[0] == 'a' && "avcs"@[1] == 'v' && "avcs"@[2] == 'c' && "avcs"@[3] == 's',
{
    reveal_strlit("aac");
    reveal_strlit("mid");
    reveal_strlit("midi");
    reveal_strlit("mp3");
    reveal_strlit("m4a");
    reveal_strlit("oga");
    reveal_strlit("opus");
    reveal_strlit("wav");
    reveal_strlit("weba");
    reveal_strlit("avi");
    reveal_strlit("mp4");
    reveal_strlit("m4v");
    reveal_strlit("ts");
    reveal_strlit("mpeg");
    reveal_strlit("ogv");
    reveal_strlit("webm");
    reveal_strlit("3gp");
    reveal_strlit("3g2");
    reveal_strlit("mov");
    reveal_strlit("bmp");
    reveal_strlit("gif");
    reveal_strlit("ico");
    reveal_strlit("jpeg");
    reveal_strlit("jpg");
    reveal_strlit("png");
    reveal_strlit("svg");
    reveal_strlit("tif");
    reveal_strlit("tiff");
    reveal_strlit("webp");
    reveal_strlit("pdf");
    reveal_strlit("heif");
    reveal_strlit("heifs");
    reveal_strlit("heic");
    reveal_strlit("heics");
    reveal_strlit("avif");
    reveal_strlit("avci");
    reveal_strlit("avcs");
}

/// Each extension the server knows as binary is served with its own
/// standard content type, on every platform (a PNG photo as `image/png`,
/// a JPEG as `image/jpeg`, ...); MPEG transport streams and MPEG videos get
/// theirs except on macOS, where they are served as text.
pub proof fn lemma_standard_mime_types(macos: bool)
    ensures
        binary_mime("aac"@, macos) == Some("audio/aac"@),
        binary_mime("mid"@, macos) == Some("audio/midi, audio/x-midi"@),
        binary_mime("midi"@, macos) == Some("audio/midi, audio/x-midi"@),
        binary_mime("mp3"@, macos) == Some("audio/mpeg"@),
        binary_mime("m4a"@, macos) == Some("audio/mp4"@),
        binary_mime("oga"@, macos) == Some("audio/ogg"@),
        binary_mime("opus"@, macos) == Some("audio/opus"@),
        binary_mime("wav"@, macos) == Some("audio/wav"@),
        binary_mime("weba"@, macos) == Some("audio/webm"@),
        binary_mime("avi"@, macos) == Some("video/x-msvideo"@),
        binary_mime("mp4"@, macos) == Some("video/mp4"@),
        binary_mime("m4v"@, macos) == Some("video/mp4"@),
        binary_mime("ogv"@, macos) == Some("video/ogg"@),
        binary_mime("webm"@, macos) == Some("video/webm"@),
        binary_mime("3gp"@, macos) == Some("video/3gpp"@),
        binary_mime("3g2"@, macos) == Some("video/3gpp2"@),
        binary_mime("mov"@, macos) == Some("video/quicktime"@),
        binary_mime("bmp"@, macos) == Some("image/bmp"@),
        binary_mime("gif"@, macos) == Some("image/gif"@),
        binary_mime("ico"@, macos) == Some("image/vnd.microsoft.icon"@),
        binary_mime("jpeg"@, macos) == Some("image/jpeg"@),
        binary_mime("jpg"@, macos) == Some("image/jpeg"@),
        binary_mime("png"@, macos) == Some("image/png"@),
        binary_mime("svg"@, macos) == Some("image/svg+xml"@),
        binary_mime("tif"@, macos) == Some("image/tiff"@),
        binary_mime("tiff"@, macos) == Some("image/tiff"@),
        binary_mime("webp"@, macos) == Some("image/webp"@),
        binary_mime("pdf"@, macos) == Some("application/pdf"@),
        binary_mime("heif"@, macos) == Some("image/heif,image/heif-sequence"@),
        binary_mime("heifs"@, macos) == Some("image/heif,image/heif-sequence"@),
        binary_mime("heic"@, macos) == Some("image/heic,image/heic-sequence"@),
        binary_mime("heics"@, macos) == Some("image/heic,image/heic-sequence"@),
        binary_mime("avif"@, macos) == Some("image/avif"@),
        binary_mime("avci"@, macos) == Some("image/avif"@),
        binary_mime("avcs"@, macos) == Some("image/avif"@),
        binary_mime("ts"@, macos) == (if macos { None } else { Some("video/mp2t"@) }),
        binary_mime("mpeg"@, macos) == (if macos { None } else { Some("video/mpeg"@) }),
{
    lemma_binary_extension_texts();
}

/// The text content type a browser recognises for extension `ext`, if any.
pub open spec fn text_mime(ext: Seq<char>) -> Option<Seq<char>> {
    if ext == "html"@ || ext == "htm"@ {
        Some("text/html"@)
    } else if ext == "css"@ {
        Some("text/css"@)
    } else if ext == "js"@ || ext == "mjs"@ {
        Some("text/javascript"@)
    } else if ext == "csv"@ {
        Some("text/csv"@)
    } else if ext == "md"@ || ext == "markdown"@ {
        Some("text/markdown"@)
    } else if ext == "rtf"@ {
        Some("text/rtf"@)
    } else if ext == "vtt"@ {
        Some("text/vtt"@)
    } else if ext == "xml"@ {
        Some("text/xml"@)
    } else if ext == "txt"@ {
        Some("text/plain"@)
    } else {
        None
    }
}

proof fn lemma_text_extension_texts()
    ensures
        "html"@.len() == 4 && "html"@[0] == 'h' && "html"@[1] == 't' && "html"@[2] == 'm' && "html"@[3] == 'l',
        "htm"@.len() == 3 && "htm"@[0] == 'h' && "htm"@[1] == 't' && "htm"@[2] == 'm',
        "css"@.len() == 3 && "css"@[0] == 'c' && "css"@[1] == 's' && "css"@[2] == 's',
        "js"@.len() == 2 && "js"@[0] == 'j' && "js"@[1] == 's',
        "mjs"@.len() == 3 && "mjs"@[0] == 'm' && "mjs"@[1] == 'j' && "mjs"@[2] == 's',
        "csv"@.len() == 3 && "csv"@[0] == 'c' && "csv"@[1] == 's' && "csv"@[2] == 'v',
        "md"@.len() == 2 && "md"@[0] == 'm' && "md"@[1] == 'd',
        "markdown"@.len() == 8 && "markdown"@[0] == 'm' && "markdown"@[1] == 'a' && "markdown"@[2] == 'r' && "markdown"@[3] == 'k' && "markdown"@[4] == 'd' && "markdown"@[5] == 'o' && "markdown"@[6] == 'w' && "markdown"@[7] == 'n',
        "rtf"@.len() == 3 && "rtf"@[0] == 'r' && "rtf"@[1] == 't' && "rtf"@[2] == 'f',
        "vtt"@.len() == 3 && "vtt"@[0] == 'v' && "vtt"@[1] == 't' && "vtt"@[2] == 't',
        "xml"@.len() == 3 && "xml"@[0] == 'x' && "xml"@[1] == 'm' && "xml"@[2] == 'l',
        "txt"@.len() == 3 && "txt"@[0] == 't' && "txt"@[1] == 'x' && "txt"@[2] == 't',
{
    reveal_strlit("html");
    reveal_strlit("htm");
    reveal_strlit("css");
    reveal_strlit("js");
    reveal_strlit("mjs");
    reveal_strlit("csv");
    reveal_strlit("md");
    reveal_strlit("markdown");
    reveal_strlit("rtf");
    reveal_strlit("vtt");
    reveal_strlit("xml");
    reveal_strlit("txt");
}

/// Each text extension the server knows is served with its own standard
/// text content type (HTML as `text/html`, CSS as `text/css`, ...).
pub proof fn lemma_standard_text_types()
    ensures
        text_mime("html"@) == Some("text/html"@),
        text_mime("htm"@) == Some("text/html"@),
        text_mime("css"@) == Some("text/css"@),
        text_mime("js"@) == Some("text/javascript"@),
        text_mime("mjs"@) == Some("text/javascript"@),
        text_mime("csv"@) == Some("text/csv"@),
        text_mime("md"@) == Some("text/markdown"@),
        text_mime("markdown"@) == Some("text/markdown"@),
        text_mime("rtf"@) == Some("text/rtf"@),
        text_mime("vtt"@) == Some("text/vtt"@),
        text_mime("xml"@) == Some("text/xml"@),
        text_mime("txt"@) == Some("text/plain"@),
{
    lemma_text_extension_texts();
}

/// The text content type a browser recognises for extension `ext`, if any.
pub fn text_mime_type(ext: &str) -> (r: Option<&'static str>)
    ensures
        match r {
            Some(m) => text_mime(ext@) == Some(m@),
            None => text_mime(ext@) is None,
        },
{
    if str_eq(ext, "html") || str_eq(ext, "htm") {
        Some("text/html")
    } else if str_eq(ext, "css") {
        Some("text/css")
    } else if str_eq(ext, "js") || str_eq(ext, "mjs") {
        Some("text/javascript")
    } else if str_eq(ext, "csv") {
        Some("text/csv")
    } else if str_eq(ext, "md") || str_eq(ext, "markdown") {
        Some("text/markdown")
    } else if str_eq(ext, "rtf") {
        Some("text/rtf")
    } else if str_eq(ext, "vtt") {
        Some("text/vtt")
    } else if str_eq(ext, "xml") {
        Some("text/xml")
    } else if str_eq(ext, "txt") {
        Some("text/plain")
    } else {
        None
    }
}

/// The content type of a text file with extension `ext` whose encoding was
/// guessed as `charset`.
pub open spec fn text_content_type_of(ext: Seq<char>, charset: Seq<char>) -> Seq<char> {
    let mime = match text_mime(ext) {
        Some(m) => m,
        None => "text/plain"@,
    };
    mime + "; charset="@ + charset
}

/// The content type of a text file with extension `ext` whose encoding was
/// guessed as `charset`. A file of an unknown extension needs an encoding.
pub fn text_content_type(ext: &str, charset: &str) -> (r: String)
    requires
        text_mime(ext@) is Some || charset@.len() > 0,
    ensures
        r@ == text_content_type_of(ext@, charset@),
{
    let mut r = match text_mime_type(ext) {
        Some(m) => String::from_str(m),
        None => String::from_str("text/plain"),
    };
    r.append("; charset=");
    r.append(charset);
    r
}

/// How many bytes of a file of `file_len` bytes are read to guess its text
/// encoding, and whether that is the whole file.
pub fn text_sample_len(file_len: u64) -> (r: (usize, bool))
    ensures
        r.0 == (if file_len < MAX_TEXT_READ_LENGTH {
            file_len as int
        } else {
            MAX_TEXT_READ_LENGTH as int
        }),
        r.1 == (r.0 == file_len),
{
    let n: usize = if file_len < 10240 {
        file_len as usize
    } else {
        MAX_TEXT_READ_LENGTH
    };
    (n, n as u64 == file_len)
}

/// The HTTP range header parser's error (an outside type).
#[verifier::external_type_specification]
#[verifier::external_body]
pub struct ExHttpRangeParseError(http_range::HttpRangeParseError);

/// The ranges (start, length) that `HttpRange::parse` gives for `header`
/// and a body of `size` bytes, or none where it fails.
pub uninterp spec fn http_range_parse(header: Seq<char>, size: u64) -> Option<Seq<(u64, u64)>>;

/// Calls `http_range::HttpRange::parse`. Its source shows that an empty
/// header gives no range, and that every range it gives ends within the body
/// and, for a body that is not empty, holds at least one byte. Which of its
/// two errors it gives is left unsaid: both are answered alike.
#[verifier::external_body]
fn parse_http_range(header: &str, size: u64) -> (r: Result<Vec<(u64, u64)>, http_range::HttpRangeParseError>)
    ensures
        r is Ok <==> http_range_parse(header@, size) is Some,
        r matches Ok(v) ==> http_range_parse(header@, size) == Some(v@),
        header@.len() == 0 ==> r is Ok && r->Ok_0@.len() == 0,
        r matches Ok(v) ==> forall|i: int|
            0 <= i < v@.len() ==> #[trigger] v@[i].0 + v@[i].1 <= size && (size > 0 ==> v@[i].1
                >= 1),
{
    http_range::HttpRange::parse(header, size).map(|v| v.iter().map(|r| (r.start, r.length)).collect())
}

/// What is known of the file being served.
#[derive(Debug, Clone, Copy, PartialEq, Eq, Structural)]
pub struct FileFacts {
    /// Its length in bytes.
    pub len: u64,
    /// Its modification time in milliseconds since the Unix epoch, if known.
    pub modified_millis: Option<u128>,
}

/// The `Range` header of a request.
#[derive(Debug, Clone)]
pub enum RangeHeader {
    Absent,
    /// Present, but not visible ASCII.
    Unreadable,
    Text(String),
}

/// The parts of a request that decide how a file is served.
#[derive(Debug, Clone)]
pub struct ServeRequest {
    pub is_get: bool,
    pub if_none_match: Option<Vec<u8>>,
    pub range: RangeHeader,
}

/// What the body of the response holds.
#[derive(Debug, Clone, Copy, PartialEq, Eq, Structural)]
pub enum ServeBody {
    Nothing,
    /// `length` bytes of the file from `start`.
    Bytes { start: u64, length: u64 },
    WholeFile,
}

/// The response to send.
#[derive(Debug, Clone)]
pub struct ServePlan {
    pub status: u16,
    /// Whether `Accept-Ranges: bytes` is sent.
    pub accept_ranges: bool,
    pub etag: Option<String>,
    pub content_range: Option<String>,
    pub content_length: Option<String>,
    pub body: ServeBody,
}

/// A [`ServePlan`] with its texts as character sequences.
pub struct ServePlanView {
    pub status: u16,
    pub accept_ranges: bool,
    pub etag: Option<Seq<char>>,
    pub content_range: Option<Seq<char>>,
    pub content_length: Option<Seq<char>>,
    pub body: ServeBody,
}

/// The characters of an optional text.
pub open spec fn opt_text(o: Option<String>) -> Option<Seq<char>> {
    match o {
        Some(s) => Some(s@),
        None => None,
    }
}

impl View for ServePlan {
    type V = ServePlanView;

    open spec fn view(&self) -> ServePlanView {
        ServePlanView {
            status: self.status,
            accept_ranges: self.accept_ranges,
            etag: opt_text(self.etag),
            content_range: opt_text(self.content_range),
            content_length: opt_text(self.content_length),
            body: self.body,
        }
    }
}

/// Why a request is refused.
#[derive(Debug, Clone, Copy, PartialEq, Eq, Structural)]
pub enum ServeError {
    /// The range header cannot be read or parsed.
    BadRequest,
}

/// The ETag of a file modified at `millis`: the number, in double quotes.
pub open spec fn etag_text(millis: nat) -> Seq<char> {
    "\""@ + decimal(millis) + "\""@
}

/// Whether the bytes of a header are the characters of `text`, one for one.
pub open spec fn bytes_are_text(bytes: Seq<u8>, text: Seq<char>) -> bool {
    bytes.len() == text.len() && forall|i: int| 0 <= i < bytes.len() ==> (bytes[i] as char) == text[i]
}

/// The `Content-Range` of `length` bytes from `start` of a body of `size` bytes.
pub open spec fn content_range_text(start: nat, length: nat, size: nat) -> Seq<char> {
    "bytes "@ + decimal(start) + "-"@ + decimal((start + length - 1) as nat) + "/"@ + decimal(size)
}

/// The response to a request, given the file's facts (none when they could
/// not be read). `ranges` is what the range header parses to, where it is
/// read. None where the header asks for other than one range, which is not
/// supported.
pub open spec fn serve_response(
    facts: Option<FileFacts>,
    is_get: bool,
    if_none_match: Option<Seq<u8>>,
    range: Option<Option<Seq<char>>>,
) -> Option<Result<ServePlanView, ServeError>> {
    match facts {
        None => Some(
            Ok(
                ServePlanView {
                    status: 200,
                    accept_ranges: false,
                    etag: None,
                    content_range: None,
                    content_length: None,
                    body: ServeBody::WholeFile,
                },
            ),
        ),
        Some(f) => {
            let etag = match f.modified_millis {
                Some(m) => Some(etag_text(m as nat)),
                None => None,
            };
            let base = ServePlanView {
                status: 200,
                accept_ranges: true,
                etag,
                content_range: None,
                content_length: None,
                body: ServeBody::WholeFile,
            };
            if etag is Some && if_none_match is Some && bytes_are_text(
                if_none_match->0,
                etag->0,
            ) {
                Some(Ok(ServePlanView { status: 304, etag: None, body: ServeBody::Nothing, ..base }))
            } else if f.len == 0 {
                Some(
                    Ok(
                        ServePlanView {
                            content_length: Some("0"@),
                            body: ServeBody::Nothing,
                            ..base
                        },
                    ),
                )
            } else if is_get && range is Some {
                match range->0 {
                    None => Some(Err(ServeError::BadRequest)),
                    Some(h) => match http_range_parse(h, f.len) {
                        None => Some(Err(ServeError::BadRequest)),
                        Some(rs) => if rs.len() != 1 {
                            None
                        } else {
                            let (start, length) = rs[0];
                            Some(
                                Ok(
                                    ServePlanView {
                                        status: 206,
                                        content_range: Some(
                                            content_range_text(
                                                start as nat,
                                                length as nat,
                                                f.len as nat,
                                            ),
                                        ),
                                        content_length: Some(decimal(length as nat)),
                                        body: ServeBody::Bytes { start, length },
                                        ..base
                                    },
                                ),
                            )
                        },
                    },
                }
            } else {
                Some(Ok(base))
            }
        },
    }
}

fn bytes_match_text(bytes: &Vec<u8>, text: &str) -> (r: bool)
    ensures
        r == bytes_are_text(bytes@, text@),
{
    let n = text.unicode_len();
    if bytes.len() != n {
        return false;
    }
    let mut i: usize = 0;
    while i < n
        invariant
            n == text@.len(),
            n == bytes@.len(),
            i <= n,
            forall|j: int| 0 <= j < i ==> (bytes@[j] as char) == text@[j],
        decreases n - i,
    {
        if (bytes[i] as char) != text.get_char(i) {
            return false;
        }
        i = i + 1;
    }
    true
}

fn etag_for(millis: u128) -> (r: String)
    ensures
        r@ == etag_text(millis as nat),
{
    let mut r = String::from_str("\"");
    push_decimal(&mut r, millis);
    r.append("\"");
    r
}

/// The headers and body of a response serving the bytes of `range`
/// (start, length) of a file of `size` bytes, on top of `base`.
pub fn range_response(base: ServePlan, range: (u64, u64), size: u64) -> (r: ServePlan)
    requires
        range.1 >= 1,
        range.0 + range.1 <= size,
    ensures
        r@ == (ServePlanView {
            status: 206,
            content_range: Some(content_range_text(range.0 as nat, range.1 as nat, size as nat)),
            content_length: Some(decimal(range.1 as nat)),
            body: ServeBody::Bytes { start: range.0, length: range.1 },
            ..base@
        }),
{
    let (start, length) = range;
    let mut content_range = String::from_str("bytes ");
    push_decimal(&mut content_range, start as u128);
    content_range.append("-");
    push_decimal(&mut content_range, (start + length - 1) as u128);
    content_range.append("/");
    push_decimal(&mut content_range, size as u128);
    let mut content_length = String::new();
    push_decimal(&mut content_length, length as u128);
    ServePlan {
        status: 206,
        content_range: Some(content_range),
        content_length: Some(content_length),
        body: ServeBody::Bytes { start, length },
        ..base
    }
}

/// Plans the response serving a file: `304 Not Modified` when the request's
/// `If-None-Match` is the file's ETag, an empty body for an empty file, the
/// requested bytes for a `GET` with one range, else the whole file. None
/// where the range header asks for other than one range.
pub fn plan_serve_file(facts: Option<FileFacts>, req: &ServeRequest) -> (r: Option<
    Result<ServePlan, ServeError>,
>)
    ensures
        serve_response(
            facts,
            req.is_get,
            match req.if_none_match {
                Some(b) => Some(b@),
                None => None,
            },
            match req.range {
                RangeHeader::Absent => None,
                RangeHeader::Unreadable => Some(None),
                RangeHeader::Text(h) => Some(Some(h@)),
            },
        ) == match r {
            Some(Ok(p)) => Some(Ok::<ServePlanView, ServeError>(p@)),
            Some(Err(e)) => Some(Err::<ServePlanView, ServeError>(e)),
            None => None::<Result<ServePlanView, ServeError>>,
        },
        r matches Some(Ok(p)) ==> (p.body matches ServeBody::Bytes { start, length } ==> facts
            is Some && 1 <= length && start + length <= facts->0.len),
{
    let f = match facts {
        None => {
            return Some(
                Ok(
                    ServePlan {
                        status: 200,
                        accept_ranges: false,
                        etag: None,
                        content_range: None,
                        content_length: None,
                        body: ServeBody::WholeFile,
                    },
                ),
            );
        },
        Some(f) => f,
    };
    let etag = match f.modified_millis {
        Some(m) => Some(etag_for(m)),
        None => None,
    };
    let not_modified = match (&etag, &req.if_none_match) {
        (Some(e), Some(b)) => bytes_match_text(b, e.as_str()),
        _ => false,
    };
    if not_modified {
        return Some(
            Ok(
                ServePlan {
                    status: 304,
                    accept_ranges: true,
                    etag: None,
                    content_range: None,
                    content_length: None,
                    body: ServeBody::Nothing,
                },
            ),
        );
    }
    let base = ServePlan {
        status: 200,
        accept_ranges: true,
        etag,
        content_range: None,
        content_length: None,
        body: ServeBody::WholeFile,
    };
    if f.len == 0 {
        return Some(
            Ok(
                ServePlan {
                    content_length: Some(String::from_str("0")),
                    body: ServeBody::Nothing,
                    ..base
                },
            ),
        );
    }
    if req.is_get {
        match &req.range {
            RangeHeader::Absent => {},
            RangeHeader::Unreadable => {
                return Some(Err(ServeError::BadRequest));
            },
            RangeHeader::Text(h) => {
                let ranges = match parse_http_range(h.as_str(), f.len) {
                    Ok(v) => v,
                    Err(_) => {
                        return Some(Err(ServeError::BadRequest));
                    },
                };
                if ranges.len() != 1 {
                    return None;
                }
                let range = ranges[0];
                assert(ranges@[0] == range);
                return Some(Ok(range_response(base, range, f.len)));
            },
        }
    }
    Some(Ok(base))
}

/// A request whose `If-None-Match` is the file's ETag is answered
/// `304 Not Modified`, with no body, whatever else it asks.
pub proof fn lemma_matching_etag_not_modified(
    len: u64,
    millis: u128,
    is_get: bool,
    range: Option<Option<Seq<char>>>,
    if_none_match: Seq<u8>,
)
    requires
        bytes_are_text(if_none_match, etag_text(millis as nat)),
    ensures
        serve_response(
            Some(FileFacts { len, modified_millis: Some(millis) }),
            is_get,
            Some(if_none_match),
            range,
        ) matches Some(Ok(p)) && p.status == 304 && p.body == ServeBody::Nothing,
{
}

/// A file whose facts could not be read is served whole, without ranges
/// or ETag.
pub proof fn lemma_no_facts_whole_file(is_get: bool, if_none_match: Option<Seq<u8>>, range: Option<Option<Seq<char>>>)
    ensures
        serve_response(None, is_get, if_none_match, range) matches Some(Ok(p)) && p.status == 200
            && p.body == ServeBody::WholeFile && !p.accept_ranges && p.etag is None,
{
}


/// The identifiers a file request names: its library, location and file path.
#[derive(Debug, Clone, Copy, PartialEq, Eq, Structural)]
pub struct FileRoute {
    pub library_id: u128,
    pub location_id: i32,
    pub file_path_id: i32,
}

/// The value of an id in a request's path: a decimal integer that fits an `i32`.
pub open spec fn id_value(s: Seq<char>) -> Option<i32> {
    if is_integer_text(s) && i32::MIN <= integer_value(s) <= i32::MAX {
        Some(integer_value(s) as i32)
    } else {
        None
    }
}

/// The route of `/file/{library}/{location}/{file path}`, if each part parses.
pub open spec fn file_route_of(library: Seq<char>, location: Seq<char>, file_path: Seq<char>) -> Option<
    FileRoute,
> {
    match (uuid_parse(library), id_value(location), id_value(file_path)) {
        (Some(l), Some(a), Some(b)) => Some(FileRoute { library_id: l, location_id: a, file_path_id: b }),
        _ => None,
    }
}

fn parse_id(s: &str) -> (r: Option<i32>)
    ensures
        r == id_value(s@),
{
    match parse_i64(s) {
        Some(v) => if -2147483648i64 <= v && v <= 2147483647i64 {
            Some(v as i32)
        } else {
            None
        },
        None => None,
    }
}

/// Reads the parts of a file request's path; a part that does not parse is
/// a bad request.
pub fn parse_file_route(library: &str, location: &str, file_path: &str) -> (r: Result<FileRoute, ServeError>)
    ensures
        r == match file_route_of(library@, location@, file_path@) {
            Some(f) => Ok::<FileRoute, ServeError>(f),
            None => Err(ServeError::BadRequest),
        },
{
    let library_id = match parse_uuid(library) {
        Some(id) => id,
        None => {
            return Err(ServeError::BadRequest);
        },
    };
    let location_id = match parse_id(location) {
        Some(id) => id,
        None => {
            return Err(ServeError::BadRequest);
        },
    };
    let file_path_id = match parse_id(file_path) {
        Some(id) => id,
        None => {
            return Err(ServeError::BadRequest);
        },
    };
    Ok(FileRoute { library_id, location_id, file_path_id })
}

/// What the CORS layer does with a request: answer a preflight at once with
/// its headers, or pass the request on and add its headers to the response.
#[derive(Debug)]
pub struct CorsPlan {
    pub answer_now: bool,
    pub headers: Vec<(&'static str, &'static str)>,
}

/// The views of some headers.
pub open spec fn header_views(h: Seq<(&'static str, &'static str)>) -> Seq<(Seq<char>, Seq<char>)> {
    h.map_values(|x: (&'static str, &'static str)| (x.0@, x.1@))
}

/// The headers of the answer to a preflight (`OPTIONS`) request.
pub open spec fn preflight_headers() -> Seq<(Seq<char>, Seq<char>)> {
    seq![
        ("Access-Control-Allow-Methods"@, "GET, HEAD, POST, OPTIONS"@),
        ("Access-Control-Allow-Headers"@, "*"@),
        ("Access-Control-Max-Age"@, "86400"@),
    ]
}

/// The headers added to every other response.
pub open spec fn response_headers() -> Seq<(Seq<char>, Seq<char>)> {
    seq![("Access-Control-Allow-Origin"@, "*"@), ("Connection"@, "Keep-Alive"@), ("Server"@, "Spacedrive"@)]
}

/// The CORS layer's plan for a request, by whether it is an `OPTIONS` request.
pub fn cors(is_options: bool) -> (r: CorsPlan)
    ensures
        r.answer_now == is_options,
        header_views(r.headers@) == if is_options {
            preflight_headers()
        } else {
            response_headers()
        },
{
    let mut headers: Vec<(&'static str, &'static str)> = Vec::new();
    if is_options {
        headers.push(("Access-Control-Allow-Methods", "GET, HEAD, POST, OPTIONS"));
        headers.push(("Access-Control-Allow-Headers", "*"));
        headers.push(("Access-Control-Max-Age", "86400"));
    } else {
        headers.push(("Access-Control-Allow-Origin", "*"));
        headers.push(("Connection", "Keep-Alive"));
        headers.push(("Server", "Spacedrive"));
    }
    proof {
        assert(header_views(headers@) =~= if is_options {
            preflight_headers()
        } else {
            response_headers()
        });
    }
    CorsPlan { answer_now: is_options, headers }
}


/// Whether a `/thumbnail/{path}` request may be served, given whether the
/// requested path, joined to the thumbnail directory, still lies under it
/// (the caller joins and compares the paths) and the path's extension: only
/// `webp` thumbnails under the directory are; any other request is answered
/// `404 Not Found`.
pub fn thumbnail_request_allowed(under_thumbnails_dir: bool, extension: Option<&str>) -> (r: bool)
    ensures
        r == (under_thumbnails_dir && (extension matches Some(e) && e@ == "webp"@)),
{
    if !under_thumbnails_dir {
        return false;
    }
    match extension {
        Some(e) => str_eq(e, "webp"),
        None => false,
    }
}

/// The status answering a file that could not be opened: `404 Not Found`
/// when it does not exist, else `500 Internal Server Error`.
pub fn open_failure_status(not_found: bool) -> (r: u16)
    ensures
        r == (if not_found { 404u16 } else { 500u16 }),
{
    if not_found {
        404
    } else {
        500
    }
}

} // verus!
