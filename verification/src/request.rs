//! Minimal parsing of a raw HTTP request.
//!
//! Only the status line is examined.  The line ends at the first
//! carriage-return byte; a request without one is malformed.  The line is
//! split on single-space boundaries; token 0 is the method and token 1 the
//! target path.  A line with no space has no target and is also treated as
//! malformed, so that every malformed request gets a well-formed error
//! response instead of a crash.
//!
//! The tokens are read over the raw bytes, and that is the intended
//! meaning of the match: lossily decoding the line as text first could
//! only alter byte runs that are not valid UTF-8 — never the separator
//! bytes, which are plain ASCII — so the token boundaries agree, and the
//! method and target are meant to be compared byte for byte.

use crate::bytes::{copy_range, find_byte, first_pos, lemma_first_pos};
use vstd::prelude::*;

verus! {

pub const CR: u8 = 13;

pub const SP: u8 = 32;

/// Whether the raw request holds a carriage-return byte at all.
pub open spec fn has_cr(req: Seq<u8>) -> bool {
    first_pos(req, CR) < req.len()
}

/// The status line: everything before the first carriage return.
pub open spec fn line_of(req: Seq<u8>) -> Seq<u8> {
    req.subrange(0, first_pos(req, CR))
}

/// Token 0 of the status line: the raw bytes before the first space.
pub open spec fn method_of(req: Seq<u8>) -> Seq<u8> {
    let line = line_of(req);
    line.subrange(0, first_pos(line, SP))
}

/// Whether the status line has a second token at all.
pub open spec fn has_target(req: Seq<u8>) -> bool {
    first_pos(line_of(req), SP) < line_of(req).len()
}

/// Token 1 of the status line: the raw bytes after the first space, up
/// to the next space or the end of the line.
pub open spec fn target_of(req: Seq<u8>) -> Seq<u8> {
    let line = line_of(req);
    let rest = line.subrange(first_pos(line, SP) + 1, line.len() as int);
    rest.subrange(0, first_pos(rest, SP))
}

/// A request is malformed when no carriage return ends a status line, or
/// the status line has fewer than two space-separated tokens.
pub open spec fn malformed(req: Seq<u8>) -> bool {
    !has_cr(req) || !has_target(req)
}

/// The minimally parsed status line of a well-formed request.
pub struct RequestLine {
    pub method: Vec<u8>,
    pub target: Vec<u8>,
}

/// Extract method and target from the raw request, or report it malformed.
pub fn parse_request(req: &[u8]) -> (r: Option<RequestLine>)
    ensures
        match r {
            Some(line) => !malformed(req@) && line.method@ == method_of(req@) && line.target@
                == target_of(req@),
            None => malformed(req@),
        },
{
    proof {
        lemma_first_pos(req@, CR);
    }
    let cr = match find_byte(req, CR) {
        Some(i) => i,
        None => {
            return None;
        },
    };
    let line = copy_range(req, 0, cr);
    proof {
        assert(line@ == line_of(req@));
        lemma_first_pos(line@, SP);
    }
    let sp = match find_byte(line.as_slice(), SP) {
        Some(i) => i,
        None => {
            return None;
        },
    };
    let method = copy_range(line.as_slice(), 0, sp);
    let rest = copy_range(line.as_slice(), sp + 1, line.len());
    proof {
        lemma_first_pos(rest@, SP);
    }
    let sp2 = match find_byte(rest.as_slice(), SP) {
        Some(i) => i,
        None => rest.len(),
    };
    let target = copy_range(rest.as_slice(), 0, sp2);
    Some(RequestLine { method, target })
}

} // verus!
