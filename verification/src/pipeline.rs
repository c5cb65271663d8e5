//! Decision logic of the per-connection pipeline around the request
//! read.
//!
//! The connection is polled once for readability; then a fixed-size
//! buffer is drained repeatedly into an accumulator until a short read
//! or a would-block says the request is complete.  The poll, the
//! receives and the final send happen outside this library; each
//! outcome arrives here as a plain event.

use crate::bytes::push_bytes;
use vstd::prelude::*;

verus! {

/// Outcome of polling the connection for readability.
#[derive(Clone, Copy, Debug, PartialEq, Eq, Structural)]
pub enum PollOutcome {
    /// Bytes are waiting.
    Ready,
    /// The window elapsed with nothing to read.
    NotReady,
    /// The poll itself failed.
    Failed,
}

/// How the pipeline starts after the readability poll.
#[derive(Clone, Copy, Debug, PartialEq, Eq, Structural)]
pub enum ReadStart {
    /// Drain the connection into the accumulator.
    Read,
    /// No readiness: a no-op abandonment, close without a response.
    Abandon,
    /// The poll failed: log and abort the connection.
    AbortConnection,
}

/// Decision after the readability poll: a timeout is a normal no-op
/// outcome, not an error.
pub open spec fn spec_read_start(p: PollOutcome) -> ReadStart {
    match p {
        PollOutcome::Ready => ReadStart::Read,
        PollOutcome::NotReady => ReadStart::Abandon,
        PollOutcome::Failed => ReadStart::AbortConnection,
    }
}

/// One decision after polling the connection.
pub fn read_start(p: &PollOutcome) -> (s: ReadStart)
    ensures
        s == spec_read_start(*p),
{
    match p {
        PollOutcome::Ready => ReadStart::Read,
        PollOutcome::NotReady => ReadStart::Abandon,
        PollOutcome::Failed => ReadStart::AbortConnection,
    }
}

/// Poll wait for the connection read: the configured window where the
/// OS interface can represent it, else the largest representable wait.
pub fn read_poll_timeout(representable: Option<u64>) -> (t: u64)
    ensures
        match representable {
            Some(m) => t == m,
            None => t == crate::dispatch::MAX_POLL_MILLIS,
        },
{
    match representable {
        Some(m) => m,
        None => crate::dispatch::MAX_POLL_MILLIS,
    }
}

/// Outcome of one non-blocking receive into the fixed-size buffer.
pub enum RecvEvent {
    /// The bytes received, at most one buffer's worth.
    Data(Vec<u8>),
    /// The receive would block: the request is complete.
    WouldBlock,
    /// Any other receive failure.
    Failed,
}

/// What the read loop does after one receive.
#[derive(Clone, Copy, Debug, PartialEq, Eq, Structural)]
pub enum ReadStep {
    /// The buffer was filled to the brim: more may be waiting.
    Continue,
    /// The request is complete; hand the accumulator to the parser.
    Done,
    /// Log and abort the connection; no response is sent.
    Abort,
}

/// One iteration of the request read loop: append what was received and
/// keep reading exactly as long as each chunk fills the whole buffer.
pub fn read_step(acc: &mut Vec<u8>, ev: RecvEvent, buf_size: usize) -> (s: ReadStep)
    ensures
        match ev {
            RecvEvent::Data(chunk) => final(acc)@ == old(acc)@ + chunk@ && (s == ReadStep::Continue
                <==> chunk@.len() == buf_size) && s != ReadStep::Abort,
            RecvEvent::WouldBlock => final(acc)@ == old(acc)@ && s == ReadStep::Done,
            RecvEvent::Failed => final(acc)@ == old(acc)@ && s == ReadStep::Abort,
        },
{
    match ev {
        RecvEvent::Data(chunk) => {
            let full = chunk.len() == buf_size;
            push_bytes(acc, chunk.as_slice());
            if full {
                ReadStep::Continue
            } else {
                ReadStep::Done
            }
        },
        RecvEvent::WouldBlock => ReadStep::Done,
        RecvEvent::Failed => ReadStep::Abort,
    }
}

/// The pipeline's log record is a warning when any non-fatal anomaly
/// occurred on the way: the peer address could not be resolved, or the
/// request bytes were not valid text.
pub fn outcome_is_warning(peer_resolved: bool, request_decoded: bool) -> (w: bool)
    ensures
        w == (!peer_resolved || !request_decoded),
{
    !peer_resolved || !request_decoded
}

} // verus!
