//! Insertion of the reload script into an HTML page.
//!
//! The script goes immediately before the closing body tag. Where a page
//! holds several such tags the last one closes the body; where it holds none
//! the script is appended. The tag name is matched without regard to ASCII
//! case, as HTML tag names are.

use crate::bytes::{append_range, ascii_lower, to_ascii_lower};
use vstd::prelude::*;

verus! {

/// Path of the endpoint that the reload script connects to.
pub const RELOAD_ENDPOINT: &'static str = "/live-server-ws";

/// The script element that every HTML response carries. On page load it
/// opens a connection to the reload endpoint at the page's own host, logs
/// when the connection is established and when it is closed, reloads the
/// page on any message, and never reconnects.
pub const RELOAD_SCRIPT: &'static str = "<script>(() => { const ws = new WebSocket((location.protocol === \"https:\" ? \"wss://\" : \"ws://\") + location.host + \"/live-server-ws\"); ws.onopen = () => console.log(\"[Live Server] Connection Established\"); ws.onmessage = () => location.reload(); ws.onclose = () => console.log(\"[Live Server] Connection Closed\"); })();</script>";

/// Number of bytes in `</body>`.
pub const CLOSING_TAG_LEN: usize = 7;

/// Whether `</body>`, in any mix of upper and lower case, starts at index
/// `i` of `html`.
pub open spec fn closing_tag_at(html: Seq<u8>, i: int) -> bool {
    &&& 0 <= i
    &&& i + 7 <= html.len()
    &&& html[i] == 0x3c  // <
    &&& html[i + 1] == 0x2f  // /
    &&& ascii_lower(html[i + 2]) == 0x62  // b
    &&& ascii_lower(html[i + 3]) == 0x6f  // o
    &&& ascii_lower(html[i + 4]) == 0x64  // d
    &&& ascii_lower(html[i + 5]) == 0x79  // y
    &&& html[i + 6] == 0x3e  // >
}

/// Whether `html` holds a closing body tag anywhere.
pub open spec fn has_closing_tag(html: Seq<u8>) -> bool {
    exists|i: int| closing_tag_at(html, i)
}

/// Whether `p` is where the script belongs: the start of the last closing
/// body tag, or the end of a page that has no such tag.
pub open spec fn is_insertion_point(html: Seq<u8>, p: int) -> bool {
    ||| closing_tag_at(html, p) && forall|j: int| p < j ==> !closing_tag_at(html, j)
    ||| p == html.len() && !has_closing_tag(html)
}

/// The index at which the script is inserted into `html`.
pub open spec fn insertion_point(html: Seq<u8>) -> int {
    choose|p: int| is_insertion_point(html, p)
}

/// `html` with `script` inserted at index `p`.
pub open spec fn spliced(html: Seq<u8>, script: Seq<u8>, p: int) -> Seq<u8> {
    html.subrange(0, p) + script + html.subrange(p, html.len() as int)
}

/// The page that is served for `html`: `html` with `script` inserted at its
/// insertion point.
pub open spec fn with_script(html: Seq<u8>, script: Seq<u8>) -> Seq<u8> {
    spliced(html, script, insertion_point(html))
}

/// At most one index is an insertion point.
pub proof fn lemma_insertion_point_unique(html: Seq<u8>, p: int, q: int)
    requires
        is_insertion_point(html, p),
        is_insertion_point(html, q),
    ensures
        p == q,
{
    if p < q {
        assert(!closing_tag_at(html, q));
    } else if q < p {
        assert(!closing_tag_at(html, p));
    }
}

/// An index known to be an insertion point is the insertion point.
pub proof fn lemma_insertion_point_is(html: Seq<u8>, p: int)
    requires
        is_insertion_point(html, p),
    ensures
        insertion_point(html) == p,
{
    lemma_insertion_point_unique(html, p, insertion_point(html));
}

/// Every page has an insertion point, and it lies within the page.
pub proof fn lemma_insertion_point_exists(html: Seq<u8>)
    ensures
        is_insertion_point(html, insertion_point(html)),
        0 <= insertion_point(html) <= html.len(),
{
    lemma_last_tag_below(html, html.len() as int);
    let p = last_tag_below(html, html.len() as int);
    if p < 0 {
        assert(is_insertion_point(html, html.len() as int));
    } else {
        assert(is_insertion_point(html, p));
    }
}

/// The greatest index below `n` at which a closing body tag starts, or `-1`.
spec fn last_tag_below(html: Seq<u8>, n: int) -> int
    decreases n,
{
    if n <= 0 {
        -1
    } else if closing_tag_at(html, n - 1) {
        n - 1
    } else {
        last_tag_below(html, n - 1)
    }
}

proof fn lemma_last_tag_below(html: Seq<u8>, n: int)
    ensures
        -1 <= last_tag_below(html, n),
        last_tag_below(html, n) < n || n <= 0,
        last_tag_below(html, n) >= 0 ==> closing_tag_at(html, last_tag_below(html, n)),
        forall|j: int| last_tag_below(html, n) < j < n ==> !closing_tag_at(html, j),
    decreases n,
{
    if n > 0 && !closing_tag_at(html, n - 1) {
        lemma_last_tag_below(html, n - 1);
    }
}

/// The script is inserted exactly once and nothing else changes: the served
/// page is as long as the page and the script together, it holds the script
/// at the insertion point, and with those bytes cut out again it is the page,
/// byte for byte.
pub proof fn lemma_injection_keeps_page(html: Seq<u8>, script: Seq<u8>)
    ensures
        with_script(html, script).len() == html.len() + script.len(),
        0 <= insertion_point(html) <= html.len(),
        with_script(html, script).subrange(
            insertion_point(html),
            insertion_point(html) + script.len(),
        ) == script,
        with_script(html, script).subrange(0, insertion_point(html)) + with_script(
            html,
            script,
        ).subrange(
            insertion_point(html) + script.len(),
            with_script(html, script).len() as int,
        ) == html,
{
    lemma_insertion_point_exists(html);
    let p = insertion_point(html);
    let out = with_script(html, script);
    assert(out.subrange(p, p + script.len()) =~= script);
    assert(out.subrange(0, p) + out.subrange(p + script.len(), out.len() as int) =~= html);
}

/// A page without a closing body tag is served with the script appended.
pub proof fn lemma_injection_appends_without_tag(html: Seq<u8>, script: Seq<u8>)
    requires
        !has_closing_tag(html),
    ensures
        with_script(html, script) == html + script,
{
    lemma_insertion_point_is(html, html.len() as int);
    assert(with_script(html, script) =~= html + script);
}

/// Whether a closing body tag starts at index `i` of `html`.
pub fn is_closing_tag_at(html: &[u8], i: usize) -> (r: bool)
    ensures
        r == closing_tag_at(html@, i as int),
{
    if html.len() < CLOSING_TAG_LEN || i > html.len() - CLOSING_TAG_LEN {
        return false;
    }
    html[i] == 0x3c && html[i + 1] == 0x2f && to_ascii_lower(html[i + 2]) == 0x62
        && to_ascii_lower(html[i + 3]) == 0x6f && to_ascii_lower(html[i + 4]) == 0x64
        && to_ascii_lower(html[i + 5]) == 0x79 && html[i + 6] == 0x3e
}

/// The start of the last closing body tag of `html`, if it has one.
pub fn find_closing_body_tag(html: &[u8]) -> (r: Option<usize>)
    ensures
        r is Some <==> has_closing_tag(html@),
        r matches Some(p) ==> closing_tag_at(html@, p as int) && forall|j: int|
            p < j ==> !closing_tag_at(html@, j),
{
    let mut i: usize = html.len();
    while i > 0
        invariant
            i <= html.len(),
            forall|j: int| i <= j ==> !closing_tag_at(html@, j),
        decreases i,
    {
        i = i - 1;
        if is_closing_tag_at(html, i) {
            return Some(i);
        }
    }
    None
}

/// The page to serve for an HTML file: the file's bytes with `script`
/// inserted immediately before the last closing body tag, or appended where
/// the file has no such tag.
pub fn inject_script(html: &[u8], script: &[u8]) -> (out: Vec<u8>)
    ensures
        out@ == with_script(html@, script@),
{
    let at: usize = match find_closing_body_tag(html) {
        Some(p) => p,
        None => html.len(),
    };
    proof {
        lemma_insertion_point_is(html@, at as int);
    }
    let mut out: Vec<u8> = Vec::new();
    append_range(&mut out, html, 0, at);
    append_range(&mut out, script, 0, script.len());
    append_range(&mut out, html, at, html.len());
    assert(script@.subrange(0, script@.len() as int) =~= script@);
    assert(out@ =~= spliced(html@, script@, at as int));
    out
}

} // verus!
