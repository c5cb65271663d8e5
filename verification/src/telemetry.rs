//! Decision logic around the telemetry collaborator.
//!
//! The providers' force-flush and shutdown calls run outside this
//! library; each returns one of four outcomes.  These functions decide
//! what the caller does with them: an already-shut-down provider is
//! ignored, a timeout earns the whole flush round exactly one retry,
//! and an internal failure is reported and given up on.

use vstd::prelude::*;

verus! {

/// Result of one force-flush or shutdown call on a telemetry provider,
/// one per signal: metrics, traces, logs.
pub enum FlushOutcome {
    /// The call succeeded.
    Flushed,
    /// The provider was already shut down; nothing to do.
    AlreadyShutdown,
    /// The call timed out after this many milliseconds.
    TimedOut(u64),
    /// The provider reported an internal failure with this message.
    InternalFailure(String),
}

/// How one outcome is reported in the log.
#[derive(Clone, Copy, Debug, PartialEq, Eq, Structural)]
pub enum FlushReport {
    /// Success or already shut down: nothing to say.
    Silent,
    /// A timeout: worth a warning.
    Warning,
    /// An internal failure: worth an error record.
    Failure,
}

/// Reporting table for a single outcome.
pub open spec fn spec_report_for(o: FlushOutcome) -> FlushReport {
    match o {
        FlushOutcome::Flushed => FlushReport::Silent,
        FlushOutcome::AlreadyShutdown => FlushReport::Silent,
        FlushOutcome::TimedOut(_) => FlushReport::Warning,
        FlushOutcome::InternalFailure(_) => FlushReport::Failure,
    }
}

/// How to report one flush or shutdown outcome.
pub fn report_for(o: &FlushOutcome) -> (r: FlushReport)
    ensures
        r == spec_report_for(*o),
{
    match o {
        FlushOutcome::Flushed => FlushReport::Silent,
        FlushOutcome::AlreadyShutdown => FlushReport::Silent,
        FlushOutcome::TimedOut(_) => FlushReport::Warning,
        FlushOutcome::InternalFailure(_) => FlushReport::Failure,
    }
}

/// A flush round — one call per signal — is repeated exactly when some
/// signal timed out and this round was not itself the retry.
pub open spec fn spec_flush_should_retry(
    meter: FlushOutcome,
    tracer: FlushOutcome,
    logger: FlushOutcome,
    is_retry: bool,
) -> bool {
    !is_retry && (meter is TimedOut || tracer is TimedOut || logger is TimedOut)
}

/// Whether to run the flush round once more.
pub fn flush_should_retry(
    meter: &FlushOutcome,
    tracer: &FlushOutcome,
    logger: &FlushOutcome,
    is_retry: bool,
) -> (r: bool)
    ensures
        r == spec_flush_should_retry(*meter, *tracer, *logger, is_retry),
{
    if is_retry {
        false
    } else {
        let m = matches!(meter, FlushOutcome::TimedOut(_));
        let t = matches!(tracer, FlushOutcome::TimedOut(_));
        let l = matches!(logger, FlushOutcome::TimedOut(_));
        m || t || l
    }
}

/// The retry is bounded: a retry round never asks for another, whatever
/// its outcomes — so a timed-out flush is attempted at most twice.
pub proof fn lemma_flush_retry_bounded(
    meter: FlushOutcome,
    tracer: FlushOutcome,
    logger: FlushOutcome,
)
    ensures
        !spec_flush_should_retry(meter, tracer, logger, true),
{
}

} // verus!
