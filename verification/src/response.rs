//! Routing a request against the static file set and rendering the
//! response bytes.
//!
//! A response is always one status line, a Content-Type header, a
//! Content-Length header holding the exact body byte count, a blank line
//! and the body — nothing else.  A GET whose resolved target is a set
//! member is served from disk; otherwise a GET for `/` is answered with
//! the hard-coded index document, which is compiled into this library
//! and needs no disk at all; everything else is 404.  The one disk read
//! — a member file's contents — happens outside this module; its
//! outcome is handed in as a [`FileRead`] and the response is correct
//! for either outcome.

use crate::bytes::{bytes_eq, copy_range, dec_u64, last_pos, lemma_first_pos, lemma_last_pos,
    push_bytes, push_str_bytes, rfind_byte, spec_dec_u64, DOT};
use crate::fileset::{path_segments, segments_of, StaticFileSet};
use crate::request::{malformed, method_of, parse_request, target_of, CR};
use vstd::prelude::*;
use vstd::string::StringSliceAdditionalSpecFns;

verus! {

/// The only status codes the server emits.
#[derive(Clone, Copy, Debug, PartialEq, Eq, Structural)]
pub enum Status {
    Okay,
    BadRequest,
    NotFound,
    InternalError,
}

/// Status line of each status, without the trailing line break.
pub open spec fn spec_status_head(s: Status) -> Seq<u8> {
    match s {
        Status::Okay => ("HTTP/1.1 200 OK").spec_bytes(),
        Status::BadRequest => ("HTTP/1.1 400 Bad Request").spec_bytes(),
        Status::NotFound => ("HTTP/1.1 404 Not Found").spec_bytes(),
        Status::InternalError => ("HTTP/1.1 500 Internal Server Error").spec_bytes(),
    }
}

/// Content types of the fixed extension table.
#[derive(Clone, Copy, Debug, PartialEq, Eq, Structural)]
pub enum ContentType {
    Html,
    Css,
    Js,
    Svg,
    Json,
    OctetStream,
}

/// The media type sent for each table entry.
pub open spec fn spec_mime(ct: ContentType) -> Seq<u8> {
    match ct {
        ContentType::Html => ("text/html").spec_bytes(),
        ContentType::Css => ("text/css").spec_bytes(),
        ContentType::Js => ("application/javascript").spec_bytes(),
        ContentType::Svg => ("image/svg+xml").spec_bytes(),
        ContentType::Json => ("application/json").spec_bytes(),
        ContentType::OctetStream => ("application/octet-stream").spec_bytes(),
    }
}

/// The extension of a path: the bytes of its last kept segment after
/// the last dot.  A dot at the start of the segment (a hidden file), no
/// dot at all, no segment at all, or a parent-directory segment means
/// no extension.
pub open spec fn spec_extension(path: Seq<u8>) -> Option<Seq<u8>> {
    let segs = path_segments(path);
    if segs.len() == 0 {
        None
    } else {
        let comp = segs.last();
        if comp == seq![DOT, DOT] {
            None
        } else {
            let d = last_pos(comp, DOT);
            if d <= 0 {
                None
            } else {
                Some(comp.subrange(d + 1, comp.len() as int))
            }
        }
    }
}

/// The fixed extension table: html, css, js and svg are explicit, no
/// extension means JSON, anything else is generic binary.
pub open spec fn spec_content_type(path: Seq<u8>) -> ContentType {
    match spec_extension(path) {
        Option::None => ContentType::Json,
        Option::Some(e) => if e == ("html").spec_bytes() {
            ContentType::Html
        } else if e == ("css").spec_bytes() {
            ContentType::Css
        } else if e == ("js").spec_bytes() {
            ContentType::Js
        } else if e == ("svg").spec_bytes() {
            ContentType::Svg
        } else {
            ContentType::OctetStream
        },
    }
}

/// Extract the extension of `path`, as [`spec_extension`] defines it.
pub fn extension_of(path: &[u8]) -> (r: Option<Vec<u8>>)
    ensures
        match r {
            Some(e) => spec_extension(path@) == Some(e@),
            None => spec_extension(path@) is None,
        },
{
    let segs = segments_of(path);
    if segs.len() == 0 {
        return None;
    }
    let comp = &segs[segs.len() - 1];
    proof {
        assert(comp@ == path_segments(path@).last());
        assert((comp@ == seq![DOT, DOT]) == (comp@.len() == 2 && comp@[0] == DOT && comp@[1]
            == DOT)) by {
            if comp@.len() == 2 && comp@[0] == DOT && comp@[1] == DOT {
                assert(comp@ =~= seq![DOT, DOT]);
            }
        }
    }
    if comp.len() == 2 && comp[0] == DOT && comp[1] == DOT {
        return None;
    }
    proof {
        lemma_last_pos(comp@, DOT);
    }
    match rfind_byte(comp.as_slice(), DOT) {
        Some(d) => {
            if d > 0 {
                Some(copy_range(comp.as_slice(), d + 1, comp.len()))
            } else {
                None
            }
        },
        None => None,
    }
}

/// Look the resolved path up in the extension table.
pub fn content_type_for(path: &[u8]) -> (ct: ContentType)
    ensures
        ct == spec_content_type(path@),
{
    match extension_of(path) {
        None => ContentType::Json,
        Some(e) => {
            if bytes_eq(e.as_slice(), "html".as_bytes()) {
                ContentType::Html
            } else if bytes_eq(e.as_slice(), "css".as_bytes()) {
                ContentType::Css
            } else if bytes_eq(e.as_slice(), "js".as_bytes()) {
                ContentType::Js
            } else if bytes_eq(e.as_slice(), "svg".as_bytes()) {
                ContentType::Svg
            } else {
                ContentType::OctetStream
            }
        },
    }
}

/// A well-formed GET whose target, resolved against the static root,
/// names a set member.
pub open spec fn is_member_get(req: Seq<u8>, root: Seq<u8>, files: Set<Seq<Seq<u8>>>) -> bool {
    &&& !malformed(req)
    &&& method_of(req) == ("GET").spec_bytes()
    &&& files.contains(path_segments(root + target_of(req)))
}

/// A well-formed GET for exactly the root path, not served as a member.
pub open spec fn is_index_get(req: Seq<u8>, root: Seq<u8>, files: Set<Seq<Seq<u8>>>) -> bool {
    &&& !malformed(req)
    &&& method_of(req) == ("GET").spec_bytes()
    &&& !files.contains(path_segments(root + target_of(req)))
    &&& target_of(req) == ("/").spec_bytes()
}

/// Where a request is routed.
pub enum Route {
    /// Serve the member file at this resolved path.
    ServeFile { path: Vec<u8>, content_type: ContentType },
    /// Serve the hard-coded index document.
    ServeIndex,
    /// Anything else that parsed: 404.
    NotFound,
    /// The request was malformed: 400.
    BadRequest,
}

/// Decide how to answer the raw request.  The returned route tells the
/// caller which file, if any, must be read from disk before rendering.
pub fn route_request(req: &[u8], files: &StaticFileSet) -> (r: Route)
    ensures
        match r {
            Route::BadRequest => malformed(req@),
            Route::ServeFile { path, content_type } => is_member_get(
                req@,
                files.root(),
                files.segment_set(),
            ) && path@ == files.root() + target_of(req@) && content_type == spec_content_type(
                path@,
            ),
            Route::ServeIndex => is_index_get(req@, files.root(), files.segment_set()),
            Route::NotFound => !malformed(req@) && !is_member_get(
                req@,
                files.root(),
                files.segment_set(),
            ) && !is_index_get(req@, files.root(), files.segment_set()),
        },
{
    let line = match parse_request(req) {
        Some(l) => l,
        None => {
            return Route::BadRequest;
        },
    };
    let resolved = files.resolve(line.target.as_slice());
    let is_get = bytes_eq(line.method.as_slice(), "GET".as_bytes());
    if is_get && files.contains(resolved.as_slice()) {
        let ct = content_type_for(resolved.as_slice());
        Route::ServeFile { path: resolved, content_type: ct }
    } else if is_get && bytes_eq(line.target.as_slice(), "/".as_bytes()) {
        Route::ServeIndex
    } else {
        Route::NotFound
    }
}

/// The one disk path a route asks the caller to read: the resolved
/// member path.  The index document is compiled in and the error routes
/// need no body from anywhere, so no other route touches the disk.
pub fn route_read_path(route: &Route) -> (r: Option<Vec<u8>>)
    ensures
        match *route {
            Route::ServeFile { path, .. } => (r matches Some(p) && p@ == path@),
            _ => r is None,
        },
{
    match route {
        Route::ServeFile { path, .. } => {
            let p = crate::bytes::copy_range(path.as_slice(), 0, path.len());
            proof {
                assert(p@ =~= path@);
            }
            Some(p)
        },
        _ => None,
    }
}

/// Outcome of the caller's attempt to read the routed member file from
/// disk.
pub enum FileRead {
    /// The file's bytes, re-read for this request.
    Content(Vec<u8>),
    /// The read failed; the response degrades to 500.
    Failed,
}

/// The read outcome as the specification sees it.
pub open spec fn spec_read(r: FileRead) -> Option<Seq<u8>> {
    match r {
        FileRead::Content(c) => Some(c@),
        FileRead::Failed => None,
    }
}

/// The full wire form of a response: status line, Content-Type,
/// Content-Length holding the exact body byte count, blank line, body.
pub open spec fn spec_response(status: Status, content_type: Seq<u8>, body: Seq<u8>) -> Seq<u8> {
    spec_status_head(status) + ("\r\nContent-Type: ").spec_bytes() + content_type + (
    "\r\nContent-Length: ").spec_bytes() + spec_dec_u64(body.len()) + ("\r\n\r\n").spec_bytes()
        + body
}

pub open spec fn spec_bad_request_response() -> Seq<u8> {
    spec_response(Status::BadRequest, ("text/html").spec_bytes(), ("Bad Request").spec_bytes())
}

pub open spec fn spec_not_found_response() -> Seq<u8> {
    spec_response(
        Status::NotFound,
        ("text/html; charset=UTF-8").spec_bytes(),
        ("Resource Not Found").spec_bytes(),
    )
}

pub open spec fn spec_error_response() -> Seq<u8> {
    spec_response(
        Status::InternalError,
        ("text/html; charset=UTF-8").spec_bytes(),
        ("Internal Server Error | Could Not Read File").spec_bytes(),
    )
}

pub open spec fn spec_file_response(path: Seq<u8>, content: Seq<u8>) -> Seq<u8> {
    spec_response(Status::Okay, spec_mime(spec_content_type(path)), content)
}

/// The hard-coded index document served for the root path.
pub open spec fn spec_index_document() -> Seq<u8> {
    ("<!DOCTYPE html><html><head><title>Index</title></head><body><h1>Index</h1></body></html>").spec_bytes()
}

/// The hard-coded index document, as served.
pub fn index_document() -> (d: Vec<u8>)
    ensures
        d@ == spec_index_document(),
{
    let mut d: Vec<u8> = Vec::new();
    push_str_bytes(
        &mut d,
        "<!DOCTYPE html><html><head><title>Index</title></head><body><h1>Index</h1></body></html>",
    );
    proof {
        assert(d@ =~= spec_index_document());
    }
    d
}

pub open spec fn spec_index_response() -> Seq<u8> {
    spec_response(
        Status::Okay,
        ("text/html; charset=UTF-8").spec_bytes(),
        spec_index_document(),
    )
}

/// What the server answers: the functional specification of the whole
/// per-request computation, given the raw request, the file set and the
/// outcome of the one disk read the route may have asked for.  Only the
/// member branch looks at that outcome: the index document is compiled
/// in, so the index branch answers 200 whatever any read returned.
pub open spec fn spec_response_for(
    req: Seq<u8>,
    root: Seq<u8>,
    files: Set<Seq<Seq<u8>>>,
    read: Option<Seq<u8>>,
) -> Seq<u8> {
    if malformed(req) {
        spec_bad_request_response()
    } else if is_member_get(req, root, files) {
        match read {
            Option::Some(c) => spec_file_response(root + target_of(req), c),
            Option::None => spec_error_response(),
        }
    } else if is_index_get(req, root, files) {
        spec_index_response()
    } else {
        spec_not_found_response()
    }
}

/// Render one response in wire form.
fn render(status: Status, content_type: &str, body: &[u8]) -> (resp: Vec<u8>)
    ensures
        resp@ == spec_response(status, content_type.spec_bytes(), body@),
{
    let mut out: Vec<u8> = Vec::new();
    match status {
        Status::Okay => push_str_bytes(&mut out, "HTTP/1.1 200 OK"),
        Status::BadRequest => push_str_bytes(&mut out, "HTTP/1.1 400 Bad Request"),
        Status::NotFound => push_str_bytes(&mut out, "HTTP/1.1 404 Not Found"),
        Status::InternalError => push_str_bytes(&mut out, "HTTP/1.1 500 Internal Server Error"),
    }
    push_str_bytes(&mut out, "\r\nContent-Type: ");
    push_str_bytes(&mut out, content_type);
    push_str_bytes(&mut out, "\r\nContent-Length: ");
    let digits = dec_u64(body.len() as u64);
    push_bytes(&mut out, digits.as_slice());
    push_str_bytes(&mut out, "\r\n\r\n");
    push_bytes(&mut out, body);
    proof {
        assert(out@ =~= spec_response(status, content_type.spec_bytes(), body@));
    }
    out
}

/// Build the complete response for a raw request, given the outcome of
/// the disk read that the request's route asked for.  The caller obtains
/// that route from [`route_request`] first, performs the read
/// [`route_read_path`] names, and hands the outcome in; for the index,
/// 400 and 404 routes the outcome is ignored.
pub fn build_response(req: &[u8], files: &StaticFileSet, read: &FileRead) -> (resp: Vec<u8>)
    ensures
        resp@ == spec_response_for(req@, files.root(), files.segment_set(), spec_read(*read)),
{
    match route_request(req, files) {
        Route::BadRequest => render(Status::BadRequest, "text/html", "Bad Request".as_bytes()),
        Route::NotFound => render(
            Status::NotFound,
            "text/html; charset=UTF-8",
            "Resource Not Found".as_bytes(),
        ),
        Route::ServeFile { path, content_type } => match read {
            FileRead::Content(c) => {
                let mime = match content_type {
                    ContentType::Html => "text/html",
                    ContentType::Css => "text/css",
                    ContentType::Js => "application/javascript",
                    ContentType::Svg => "image/svg+xml",
                    ContentType::Json => "application/json",
                    ContentType::OctetStream => "application/octet-stream",
                };
                render(Status::Okay, mime, c.as_slice())
            },
            FileRead::Failed => render(
                Status::InternalError,
                "text/html; charset=UTF-8",
                "Internal Server Error | Could Not Read File".as_bytes(),
            ),
        },
        Route::ServeIndex => {
            let doc = index_document();
            render(Status::Okay, "text/html; charset=UTF-8", doc.as_slice())
        },
    }
}

/// A GET on a set member, whose file was read back successfully, is
/// answered 200 with the file's bytes as the body; the response embeds a
/// Content-Length of exactly that byte count.
pub proof fn lemma_member_get_served(
    req: Seq<u8>,
    root: Seq<u8>,
    files: Set<Seq<Seq<u8>>>,
    content: Seq<u8>,
)
    requires
        is_member_get(req, root, files),
    ensures
        spec_response_for(req, root, files, Some(content)) == spec_response(
            Status::Okay,
            spec_mime(spec_content_type(root + target_of(req))),
            content,
        ),
{
}

/// A GET on `/` is always answered 200 with the hard-coded index
/// document, whatever any disk read returned; `/` itself need not be a
/// set member.  The one hypothesis is that no member normalizes to the
/// bare root directory — which no file under the root does.
pub proof fn lemma_root_get_index(
    req: Seq<u8>,
    root: Seq<u8>,
    files: Set<Seq<Seq<u8>>>,
    read: Option<Seq<u8>>,
)
    requires
        !malformed(req),
        method_of(req) == ("GET").spec_bytes(),
        target_of(req) == ("/").spec_bytes(),
        !files.contains(path_segments(root + ("/").spec_bytes())),
    ensures
        spec_response_for(req, root, files, read) == spec_index_response(),
{
}

/// Any non-GET method, and any GET on a target that is neither a set
/// member nor the root path, is answered 404 with body
/// "Resource Not Found", whatever any disk read returned.
pub proof fn lemma_unmatched_not_found(
    req: Seq<u8>,
    root: Seq<u8>,
    files: Set<Seq<Seq<u8>>>,
    read: Option<Seq<u8>>,
)
    requires
        !malformed(req),
        method_of(req) != ("GET").spec_bytes() || (!files.contains(
            path_segments(root + target_of(req)),
        ) && target_of(req) != ("/").spec_bytes()),
    ensures
        spec_response_for(req, root, files, read) == spec_not_found_response(),
{
}

/// A request without a single carriage-return byte is malformed and is
/// answered 400 with body "Bad Request", whatever any disk read returned.
pub proof fn lemma_no_cr_bad_request(
    req: Seq<u8>,
    root: Seq<u8>,
    files: Set<Seq<Seq<u8>>>,
    read: Option<Seq<u8>>,
)
    requires
        forall|i: int| 0 <= i < req.len() ==> req[i] != CR,
    ensures
        malformed(req),
        spec_response_for(req, root, files, read) == spec_bad_request_response(),
{
    lemma_first_pos(req, CR);
}

} // verus!
