//! The content type of a file, from the extension of its name.
//!
//! The extension is what follows the last dot of the file name; it is
//! matched without regard to ASCII case. A name without a dot, or with an
//! extension that the table does not hold, is served as
//! `application/octet-stream`.

use crate::bytes::{ascii_lower, is_text, to_ascii_lower};
use vstd::prelude::*;
use vstd::string::StringSliceAdditionalSpecFns;

verus! {

/// The byte `/`, which parts the segments of a path.
pub const SLASH: u8 = 0x2f;

/// The byte `.`, which parts a file name from its extension.
pub const DOT: u8 = 0x2e;

/// The content types that the server knows.
#[derive(Clone, Copy, Debug, PartialEq, Eq, Structural)]
pub enum ContentType {
    Html,
    Css,
    JavaScript,
    Json,
    Xml,
    Text,
    Csv,
    Markdown,
    Svg,
    Png,
    Jpeg,
    Gif,
    WebP,
    Icon,
    Bmp,
    Avif,
    Woff,
    Woff2,
    Ttf,
    Otf,
    Wasm,
    Pdf,
    Mp3,
    Wav,
    Ogg,
    Mp4,
    WebM,
    Zip,
    OctetStream,
}

/// Index of the first byte of the extension when the bytes of `path` below
/// `n` are read backwards: the first dot met decides, a slash met before any
/// dot ends the file name without one.
pub open spec fn extension_start(path: Seq<u8>, n: int) -> Option<int>
    decreases n,
{
    if n <= 0 {
        None
    } else if path[n - 1] == DOT {
        Some(n)
    } else if path[n - 1] == SLASH {
        None
    } else {
        extension_start(path, n - 1)
    }
}

/// The extension of the file that `path` names, in lower case; empty where
/// the file name has no dot.
pub open spec fn extension(path: Seq<u8>) -> Seq<u8> {
    match extension_start(path, path.len() as int) {
        Some(e) => Seq::new((path.len() - e) as nat, |k: int| ascii_lower(path[e + k])),
        None => Seq::empty(),
    }
}

/// The content type for a lower-case extension.
pub open spec fn type_of_extension(ext: Seq<u8>) -> ContentType {
    if ext == "html".spec_bytes() || ext == "htm".spec_bytes() {
        ContentType::Html
    } else if ext == "css".spec_bytes() {
        ContentType::Css
    } else if ext == "js".spec_bytes() || ext == "mjs".spec_bytes() {
        ContentType::JavaScript
    } else if ext == "json".spec_bytes() || ext == "map".spec_bytes() {
        ContentType::Json
    } else if ext == "xml".spec_bytes() {
        ContentType::Xml
    } else if ext == "txt".spec_bytes() {
        ContentType::Text
    } else if ext == "csv".spec_bytes() {
        ContentType::Csv
    } else if ext == "md".spec_bytes() {
        ContentType::Markdown
    } else if ext == "svg".spec_bytes() {
        ContentType::Svg
    } else if ext == "png".spec_bytes() {
        ContentType::Png
    } else if ext == "jpg".spec_bytes() || ext == "jpeg".spec_bytes() {
        ContentType::Jpeg
    } else if ext == "gif".spec_bytes() {
        ContentType::Gif
    } else if ext == "webp".spec_bytes() {
        ContentType::WebP
    } else if ext == "ico".spec_bytes() {
        ContentType::Icon
    } else if ext == "bmp".spec_bytes() {
        ContentType::Bmp
    } else if ext == "avif".spec_bytes() {
        ContentType::Avif
    } else if ext == "woff".spec_bytes() {
        ContentType::Woff
    } else if ext == "woff2".spec_bytes() {
        ContentType::Woff2
    } else if ext == "ttf".spec_bytes() {
        ContentType::Ttf
    } else if ext == "otf".spec_bytes() {
        ContentType::Otf
    } else if ext == "wasm".spec_bytes() {
        ContentType::Wasm
    } else if ext == "pdf".spec_bytes() {
        ContentType::Pdf
    } else if ext == "mp3".spec_bytes() {
        ContentType::Mp3
    } else if ext == "wav".spec_bytes() {
        ContentType::Wav
    } else if ext == "ogg".spec_bytes() {
        ContentType::Ogg
    } else if ext == "mp4".spec_bytes() {
        ContentType::Mp4
    } else if ext == "webm".spec_bytes() {
        ContentType::WebM
    } else if ext == "zip".spec_bytes() {
        ContentType::Zip
    } else {
        ContentType::OctetStream
    }
}

/// The content type of the file that `path` names.
pub open spec fn content_type_of(path: Seq<u8>) -> ContentType {
    type_of_extension(extension(path))
}

/// The name of a content type, as it goes into the response header.
pub open spec fn mime_of(content_type: ContentType) -> Seq<char> {
    match content_type {
        ContentType::Html => "text/html"@,
        ContentType::Css => "text/css"@,
        ContentType::JavaScript => "text/javascript"@,
        ContentType::Json => "application/json"@,
        ContentType::Xml => "text/xml"@,
        ContentType::Text => "text/plain"@,
        ContentType::Csv => "text/csv"@,
        ContentType::Markdown => "text/markdown"@,
        ContentType::Svg => "image/svg+xml"@,
        ContentType::Png => "image/png"@,
        ContentType::Jpeg => "image/jpeg"@,
        ContentType::Gif => "image/gif"@,
        ContentType::WebP => "image/webp"@,
        ContentType::Icon => "image/x-icon"@,
        ContentType::Bmp => "image/bmp"@,
        ContentType::Avif => "image/avif"@,
        ContentType::Woff => "font/woff"@,
        ContentType::Woff2 => "font/woff2"@,
        ContentType::Ttf => "font/ttf"@,
        ContentType::Otf => "font/otf"@,
        ContentType::Wasm => "application/wasm"@,
        ContentType::Pdf => "application/pdf"@,
        ContentType::Mp3 => "audio/mpeg"@,
        ContentType::Wav => "audio/wav"@,
        ContentType::Ogg => "audio/ogg"@,
        ContentType::Mp4 => "video/mp4"@,
        ContentType::WebM => "video/webm"@,
        ContentType::Zip => "application/zip"@,
        ContentType::OctetStream => "application/octet-stream"@,
    }
}

/// What the backwards reading finds: an extension starts right after a dot
/// and holds neither dot nor slash, so it is what follows the last dot of
/// the last segment; where there is none, that segment holds no dot.
pub proof fn lemma_extension_follows_last_dot(path: Seq<u8>, n: int)
    requires
        0 <= n <= path.len(),
    ensures
        match extension_start(path, n) {
            Some(e) => {
                &&& 1 <= e <= n
                &&& path[e - 1] == DOT
                &&& forall|j: int| e <= j < n ==> path[j] != DOT && path[j] != SLASH
            },
            None => forall|j: int|
                0 <= j < n && path[j] == DOT ==> exists|k: int| j < k < n && path[k] == SLASH,
        },
    decreases n,
{
    if n > 0 && path[n - 1] != DOT && path[n - 1] != SLASH {
        lemma_extension_follows_last_dot(path, n - 1);
        match extension_start(path, n) {
            Some(e) => {},
            None => {
                assert forall|j: int| 0 <= j < n && path[j] == DOT implies exists|k: int|
                    j < k < n && path[k] == SLASH by {
                    let k = choose|k: int| j < k < n - 1 && path[k] == SLASH;
                    assert(j < k < n && path[k] == SLASH);
                }
            },
        }
    } else if n > 0 && path[n - 1] == SLASH {
        assert forall|j: int| 0 <= j < n && path[j] == DOT implies exists|k: int|
            j < k < n && path[k] == SLASH by {
            assert(j < n - 1 < n && path[n - 1] == SLASH);
        }
    }
}

impl ContentType {
    /// Whether files of this type get the reload script.
    pub fn is_html(&self) -> (r: bool)
        ensures
            r == (*self is Html),
    {
        match self {
            ContentType::Html => true,
            _ => false,
        }
    }

    /// The name of the content type, as it goes into the response header.
    pub fn mime(&self) -> (name: &'static str)
        ensures
            name@ == mime_of(*self),
    {
        match self {
            ContentType::Html => "text/html",
            ContentType::Css => "text/css",
            ContentType::JavaScript => "text/javascript",
            ContentType::Json => "application/json",
            ContentType::Xml => "text/xml",
            ContentType::Text => "text/plain",
            ContentType::Csv => "text/csv",
            ContentType::Markdown => "text/markdown",
            ContentType::Svg => "image/svg+xml",
            ContentType::Png => "image/png",
            ContentType::Jpeg => "image/jpeg",
            ContentType::Gif => "image/gif",
            ContentType::WebP => "image/webp",
            ContentType::Icon => "image/x-icon",
            ContentType::Bmp => "image/bmp",
            ContentType::Avif => "image/avif",
            ContentType::Woff => "font/woff",
            ContentType::Woff2 => "font/woff2",
            ContentType::Ttf => "font/ttf",
            ContentType::Otf => "font/otf",
            ContentType::Wasm => "application/wasm",
            ContentType::Pdf => "application/pdf",
            ContentType::Mp3 => "audio/mpeg",
            ContentType::Wav => "audio/wav",
            ContentType::Ogg => "audio/ogg",
            ContentType::Mp4 => "video/mp4",
            ContentType::WebM => "video/webm",
            ContentType::Zip => "application/zip",
            ContentType::OctetStream => "application/octet-stream",
        }
    }
}

/// Index of the first byte of the extension of the file that `path` names;
/// `None` where the file name has no dot.
fn find_extension(path: &[u8]) -> (r: Option<usize>)
    ensures
        r is Some == extension_start(path@, path@.len() as int) is Some,
        r matches Some(e) ==> extension_start(path@, path@.len() as int) == Some(e as int) && e
            <= path@.len(),
{
    let mut n: usize = path.len();
    while n > 0
        invariant
            n <= path@.len(),
            extension_start(path@, path@.len() as int) == extension_start(path@, n as int),
        decreases n,
    {
        let b: u8 = path[n - 1];
        if b == DOT {
            return Some(n);
        }
        if b == SLASH {
            return None;
        }
        n = n - 1;
    }
    None
}

/// The extension of the file that `path` names, in lower case.
pub fn extension_of(path: &[u8]) -> (ext: Vec<u8>)
    ensures
        ext@ == extension(path@),
{
    let mut ext: Vec<u8> = Vec::new();
    match find_extension(path) {
        None => {},
        Some(e) => {
            let mut i: usize = e;
            while i < path.len()
                invariant
                    e <= i <= path@.len(),
                    ext@.len() == i - e,
                    forall|k: int| 0 <= k < ext@.len() ==> ext@[k] == ascii_lower(path@[e + k]),
                decreases path@.len() - i,
            {
                ext.push(to_ascii_lower(path[i]));
                i = i + 1;
            }
        },
    }
    assert(ext@ =~= extension(path@));
    ext
}

/// The content type of the file that `path` names.
pub fn content_type_for(path: &[u8]) -> (content_type: ContentType)
    ensures
        content_type == content_type_of(path@),
{
    let ext = extension_of(path);
    if is_text(ext.as_slice(), "html") || is_text(ext.as_slice(), "htm") {
        ContentType::Html
    } else if is_text(ext.as_slice(), "css") {
        ContentType::Css
    } else if is_text(ext.as_slice(), "js") || is_text(ext.as_slice(), "mjs") {
        ContentType::JavaScript
    } else if is_text(ext.as_slice(), "json") || is_text(ext.as_slice(), "map") {
        ContentType::Json
    } else if is_text(ext.as_slice(), "xml") {
        ContentType::Xml
    } else if is_text(ext.as_slice(), "txt") {
        ContentType::Text
    } else if is_text(ext.as_slice(), "csv") {
        ContentType::Csv
    } else if is_text(ext.as_slice(), "md") {
        ContentType::Markdown
    } else if is_text(ext.as_slice(), "svg") {
        ContentType::Svg
    } else if is_text(ext.as_slice(), "png") {
        ContentType::Png
    } else if is_text(ext.as_slice(), "jpg") || is_text(ext.as_slice(), "jpeg") {
        ContentType::Jpeg
    } else if is_text(ext.as_slice(), "gif") {
        ContentType::Gif
    } else if is_text(ext.as_slice(), "webp") {
        ContentType::WebP
    } else if is_text(ext.as_slice(), "ico") {
        ContentType::Icon
    } else if is_text(ext.as_slice(), "bmp") {
        ContentType::Bmp
    } else if is_text(ext.as_slice(), "avif") {
        ContentType::Avif
    } else if is_text(ext.as_slice(), "woff") {
        ContentType::Woff
    } else if is_text(ext.as_slice(), "woff2") {
        ContentType::Woff2
    } else if is_text(ext.as_slice(), "ttf") {
        ContentType::Ttf
    } else if is_text(ext.as_slice(), "otf") {
        ContentType::Otf
    } else if is_text(ext.as_slice(), "wasm") {
        ContentType::Wasm
    } else if is_text(ext.as_slice(), "pdf") {
        ContentType::Pdf
    } else if is_text(ext.as_slice(), "mp3") {
        ContentType::Mp3
    } else if is_text(ext.as_slice(), "wav") {
        ContentType::Wav
    } else if is_text(ext.as_slice(), "ogg") {
        ContentType::Ogg
    } else if is_text(ext.as_slice(), "mp4") {
        ContentType::Mp4
    } else if is_text(ext.as_slice(), "webm") {
        ContentType::WebM
    } else if is_text(ext.as_slice(), "zip") {
        ContentType::Zip
    } else {
        ContentType::OctetStream
    }
}

} // verus!
