//! The static asset server: from a URL path to a file under the root, and
//! from what reading that file gave to a response.
//!
//! The server reads no file itself. [`resolve`] names the file for a
//! request, [`directory_index`] the file that stands for a directory, and
//! [`respond`] builds the response once the caller has tried to read it.
//! Nothing is kept between requests.

use crate::bytes::{append_range, is_text};
use crate::content_type::{content_type_for, content_type_of, ContentType, DOT, SLASH};
use crate::inject::{
    inject_script, insertion_point, lemma_injection_keeps_page, with_script, RELOAD_ENDPOINT,
};
use vstd::prelude::*;
use vstd::string::StringSliceAdditionalSpecFns;

verus! {

/// The two kinds of request that the server answers.
#[derive(Clone, Copy, Debug, PartialEq, Eq, Structural)]
pub enum Route {
    /// A request for the reload endpoint: the connection is upgraded.
    ReloadEndpoint,
    /// A request for a file under the root.
    Asset,
}

/// Where a request for the URL path `url` goes: to the reload endpoint
/// where `url` is its path, to the static files otherwise.
pub open spec fn routed(url: Seq<u8>) -> Route {
    if url == RELOAD_ENDPOINT.spec_bytes() {
        Route::ReloadEndpoint
    } else {
        Route::Asset
    }
}

/// Where a request for the URL path `url` goes.
pub fn route(url: &[u8]) -> (r: Route)
    ensures
        r == routed(url@),
{
    if is_text(url, RELOAD_ENDPOINT) {
        Route::ReloadEndpoint
    } else {
        Route::Asset
    }
}

/// Whether a segment `..` starts at index `i` of `path`.
pub open spec fn parent_segment_at(path: Seq<u8>, i: int) -> bool {
    &&& 0 <= i
    &&& i + 2 <= path.len()
    &&& path[i] == DOT
    &&& path[i + 1] == DOT
    &&& (i == 0 || path[i - 1] == SLASH)
    &&& (i + 2 == path.len() || path[i + 2] == SLASH)
}

/// Whether `path`, joined to a root directory, names something under that
/// root: it is relative, and no segment of it is `..`.
pub open spec fn confined(path: Seq<u8>) -> bool {
    &&& path.len() > 0 ==> path[0] != SLASH
    &&& forall|i: int| !parent_segment_at(path, i)
}

/// The path, relative to the root, of the file that the URL path `url`
/// names: `url` without its leading slash. `None` where `url` maps to
/// nothing under the root.
pub open spec fn resolved(url: Seq<u8>) -> Option<Seq<u8>> {
    if url.len() > 0 && url[0] == SLASH && confined(url.subrange(1, url.len() as int)) {
        Some(url.subrange(1, url.len() as int))
    } else {
        None
    }
}

/// The name `index.html`.
pub open spec fn index_name() -> Seq<u8> {
    seq![0x69u8, 0x6e, 0x64, 0x65, 0x78, 0x2e, 0x68, 0x74, 0x6d, 0x6c]
}

/// The path of the index file of the directory `dir`.
pub open spec fn index_in(dir: Seq<u8>) -> Seq<u8> {
    if dir.len() == 0 || dir.last() == SLASH {
        dir + index_name()
    } else {
        dir.push(SLASH) + index_name()
    }
}

/// The status of a response.
#[derive(Clone, Copy, Debug, PartialEq, Eq, Structural)]
pub enum Status {
    /// The file was found and read.
    Success,
    /// No file answers to the path.
    NotFound,
    /// The file is there and could not be read.
    ServerError,
}

impl Status {
    /// The HTTP status code.
    pub open spec fn spec_code(self) -> u16 {
        match self {
            Status::Success => 200,
            Status::NotFound => 404,
            Status::ServerError => 500,
        }
    }

    /// The HTTP status code.
    pub fn code(&self) -> (code: u16)
        ensures
            code == self.spec_code(),
    {
        match self {
            Status::Success => 200,
            Status::NotFound => 404,
            Status::ServerError => 500,
        }
    }
}

/// What the attempt to read a file gave.
#[derive(Debug)]
pub enum ReadOutcome {
    /// The bytes of the file, as they are on disk now.
    Found(Vec<u8>),
    /// There is no such file.
    Missing,
    /// The file could not be read: permission denied, removed meanwhile, or
    /// any other I/O error.
    Failed,
}

/// A response, ready to be sent.
#[derive(Debug)]
pub struct Response {
    pub status: Status,
    pub content_type: ContentType,
    pub body: Vec<u8>,
}

/// The status for a read outcome.
pub open spec fn status_of(outcome: ReadOutcome) -> Status {
    match outcome {
        ReadOutcome::Found(_) => Status::Success,
        ReadOutcome::Missing => Status::NotFound,
        ReadOutcome::Failed => Status::ServerError,
    }
}

/// The body for a read outcome: the bytes of the file, with the reload
/// script inserted where the file is HTML; nothing where the file was not
/// read.
pub open spec fn body_of(content_type: ContentType, outcome: ReadOutcome, script: Seq<u8>) -> Seq<
    u8,
> {
    match outcome {
        ReadOutcome::Found(bytes) => if content_type is Html {
            with_script(bytes@, script)
        } else {
            bytes@
        },
        ReadOutcome::Missing => Seq::empty(),
        ReadOutcome::Failed => Seq::empty(),
    }
}

/// Whether a segment `..` starts at index `i` of `path`.
fn is_parent_segment_at(path: &[u8], i: usize) -> (r: bool)
    requires
        i < path@.len(),
    ensures
        r == parent_segment_at(path@, i as int),
{
    if path.len() - i < 2 {
        return false;
    }
    path[i] == DOT && path[i + 1] == DOT && (i == 0 || path[i - 1] == SLASH) && (i + 2
        == path.len() || path[i + 2] == SLASH)
}

/// A segment `..` of the part of `url` after its leading slash is a segment
/// `..` of `url`, one byte further on.
proof fn lemma_parent_segment_shift(url: Seq<u8>, i: int)
    requires
        url.len() > 0,
        url[0] == SLASH,
        i >= 1,
    ensures
        parent_segment_at(url, i) == parent_segment_at(url.subrange(1, url.len() as int), i - 1),
{
    let rest = url.subrange(1, url.len() as int);
    if i + 2 <= url.len() {
        assert(rest[i - 1] == url[i]);
        assert(rest[i - 1 + 1] == url[i + 1]);
        if i - 1 > 0 {
            assert(rest[i - 1 - 1] == url[i - 1]);
        }
        if i + 2 < url.len() {
            assert(rest[i - 1 + 2] == url[i + 2]);
        }
    }
}

/// Whether the part of `url` after its leading slash is confined.
fn rest_is_confined(url: &[u8]) -> (r: bool)
    requires
        url@.len() > 0,
        url@[0] == SLASH,
    ensures
        r == confined(url@.subrange(1, url@.len() as int)),
{
    let ghost rest = url@.subrange(1, url@.len() as int);
    if url.len() > 1 && url[1] == SLASH {
        assert(rest[0] == SLASH);
        return false;
    }
    assert(rest.len() > 0 ==> rest[0] == url@[1]);
    let mut i: usize = 1;
    while i < url.len()
        invariant
            1 <= i <= url@.len(),
            url@[0] == SLASH,
            rest == url@.subrange(1, url@.len() as int),
            rest.len() > 0 ==> rest[0] != SLASH,
            forall|j: int| 0 <= j < i - 1 ==> !parent_segment_at(rest, j),
        decreases url@.len() - i,
    {
        proof {
            lemma_parent_segment_shift(url@, i as int);
        }
        if is_parent_segment_at(url, i) {
            return false;
        }
        i = i + 1;
    }
    true
}

/// The path, relative to the root, of the file that a request for the URL
/// path `url` is about. `None` where the path maps to nothing under the
/// root, which is answered as not found: a path without a leading slash, one
/// with a second slash right after it, or one with a segment `..`.
pub fn resolve(url: &[u8]) -> (r: Option<Vec<u8>>)
    ensures
        r is Some == resolved(url@) is Some,
        r matches Some(path) ==> resolved(url@) == Some(path@) && confined(path@),
{
    if url.len() == 0 || url[0] != SLASH {
        return None;
    }
    if !rest_is_confined(url) {
        return None;
    }
    let mut path: Vec<u8> = Vec::new();
    append_range(&mut path, url, 1, url.len());
    assert(path@ =~= url@.subrange(1, url@.len() as int));
    Some(path)
}

/// The path of the file that is served for the directory `dir`: its
/// `index.html`.
pub fn directory_index(dir: &[u8]) -> (path: Vec<u8>)
    ensures
        path@ == index_in(dir@),
{
    let name: [u8; 10] = [0x69, 0x6e, 0x64, 0x65, 0x78, 0x2e, 0x68, 0x74, 0x6d, 0x6c];
    let mut path: Vec<u8> = Vec::new();
    append_range(&mut path, dir, 0, dir.len());
    assert(path@ =~= dir@);
    if dir.len() > 0 && dir[dir.len() - 1] != SLASH {
        path.push(SLASH);
    }
    assert(name@ =~= index_name());
    append_range(&mut path, name.as_slice(), 0, 10);
    assert(name@.subrange(0, 10) =~= index_name());
    path
}

/// The response to a request for the file at `path`, once the caller has
/// tried to read it. A file that was read is served with status 200 and the
/// content type of its name: byte for byte where it is not HTML, with
/// `script` inserted where it is. A missing file gives 404, any other
/// failure to read gives 500, both with an empty body.
pub fn respond(path: &[u8], outcome: ReadOutcome, script: &[u8]) -> (response: Response)
    ensures
        response.status == status_of(outcome),
        response.content_type == content_type_of(path@),
        response.body@ == body_of(content_type_of(path@), outcome, script@),
{
    let content_type = content_type_for(path);
    match outcome {
        ReadOutcome::Found(bytes) => {
            let body = if content_type.is_html() {
                inject_script(bytes.as_slice(), script)
            } else {
                bytes
            };
            Response { status: Status::Success, content_type, body }
        },
        ReadOutcome::Missing => Response {
            status: Status::NotFound,
            content_type,
            body: Vec::new(),
        },
        ReadOutcome::Failed => Response {
            status: Status::ServerError,
            content_type,
            body: Vec::new(),
        },
    }
}

/// The response to a request whose URL path maps to nothing under the root:
/// not found.
pub fn respond_unmapped() -> (response: Response)
    ensures
        response.status == Status::NotFound,
        response.content_type == ContentType::OctetStream,
        response.body@ == Seq::<u8>::empty(),
{
    Response { status: Status::NotFound, content_type: ContentType::OctetStream, body: Vec::new() }
}

/// Every file under the root has a URL: for a confined path it is the path
/// behind a slash, and that URL resolves to the path.
pub proof fn lemma_confined_path_has_url(path: Seq<u8>)
    requires
        confined(path),
    ensures
        resolved(seq![SLASH] + path) == Some(path),
{
    let url = seq![SLASH] + path;
    assert(url.subrange(1, url.len() as int) =~= path);
}

/// The index file of a confined directory is confined too: serving a
/// directory never leaves the root.
pub proof fn lemma_index_stays_confined(dir: Seq<u8>)
    requires
        confined(dir),
    ensures
        confined(index_in(dir)),
{
    let path = index_in(dir);
    let stem = if dir.len() == 0 || dir.last() == SLASH {
        dir
    } else {
        dir.push(SLASH)
    };
    assert(path =~= stem + index_name());
    assert forall|i: int| !parent_segment_at(path, i) by {
        if parent_segment_at(path, i) {
            if i + 2 <= dir.len() {
                assert(path[i] == dir[i]);
                assert(path[i + 1] == dir[i + 1]);
                if i > 0 {
                    assert(path[i - 1] == dir[i - 1]);
                }
                if i + 2 < dir.len() {
                    assert(path[i + 2] == dir[i + 2]);
                }
                assert(parent_segment_at(dir, i));
            } else if i + 1 == dir.len() {
                assert(path[i + 1] == SLASH || path[i + 1] == 0x69);
            } else {
                let k = i - stem.len();
                if k >= 0 {
                    assert(path[i] == index_name()[k]);
                    assert(path[i + 1] == index_name()[k + 1]);
                } else {
                    assert(path[i] == SLASH);
                }
            }
        }
    }
}

/// An HTML file is served with the script inserted exactly once and
/// nothing else changed: the body is as long as the file and the script
/// together, it holds the script at the file's insertion point, and with
/// those bytes cut out again it is the file, byte for byte.
pub proof fn lemma_html_served_with_script_once(bytes: Vec<u8>, script: Seq<u8>)
    ensures
        status_of(ReadOutcome::Found(bytes)) == Status::Success,
        body_of(ContentType::Html, ReadOutcome::Found(bytes), script) == with_script(
            bytes@,
            script,
        ),
        with_script(bytes@, script).len() == bytes@.len() + script.len(),
        0 <= insertion_point(bytes@) <= bytes@.len(),
        with_script(bytes@, script).subrange(
            insertion_point(bytes@),
            insertion_point(bytes@) + script.len(),
        ) == script,
        with_script(bytes@, script).subrange(0, insertion_point(bytes@)) + with_script(
            bytes@,
            script,
        ).subrange(
            insertion_point(bytes@) + script.len(),
            with_script(bytes@, script).len() as int,
        ) == bytes@,
{
    lemma_injection_keeps_page(bytes@, script);
}

/// A file that is not HTML is served as it is on disk.
pub proof fn lemma_other_files_served_verbatim(
    content_type: ContentType,
    bytes: Vec<u8>,
    script: Seq<u8>,
)
    requires
        !(content_type is Html),
    ensures
        status_of(ReadOutcome::Found(bytes)) == Status::Success,
        body_of(content_type, ReadOutcome::Found(bytes), script) == bytes@,
{
}

} // verus!
