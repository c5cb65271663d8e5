//! Decision logic of the accept loop, the worker loop and the shutdown
//! coordinator.
//!
//! The loops themselves block on OS resources — the listening socket's
//! readiness poll, the connection channel's timed receive, the interrupt
//! — so they run outside this library.  Each loop builds a plain event
//! from what it observed (checking the shutdown flag first) and asks
//! these functions what to do next; the contracts pin the whole decision
//! tables, and the shutdown laws are stated over them.

use vstd::prelude::*;

verus! {

/// Largest poll wait the OS interface can represent, in milliseconds.
pub const MAX_POLL_MILLIS: u64 = 2147483647;

/// What the accept loop observed at the head of one iteration: the
/// shutdown flag is consulted first; only when it is clear does the loop
/// poll the listening socket.
#[derive(Clone, Copy, Debug, PartialEq, Eq, Structural)]
pub enum AcceptEvent {
    /// The shutdown flag was set.
    ShutdownObserved,
    /// The readiness poll itself failed.
    PollFailed,
    /// The poll window elapsed with no pending connection.
    NotReady,
    /// The listening socket is read-ready: a connection is pending.
    Ready,
}

/// What the accept loop does next.
#[derive(Clone, Copy, Debug, PartialEq, Eq, Structural)]
pub enum AcceptAction {
    /// Leave the loop: stop accepting for good.
    Exit,
    /// Log if anything failed, then start the next iteration.
    Skip,
    /// Accept the pending connection and forward it to the workers.
    AcceptConnection,
}

/// Decision table of the accept loop: exit on shutdown, accept only on
/// readiness, and swallow poll failures and timeouts — a spurious
/// failure must not crash the server.
pub open spec fn spec_accept_step(ev: AcceptEvent) -> AcceptAction {
    match ev {
        AcceptEvent::ShutdownObserved => AcceptAction::Exit,
        AcceptEvent::PollFailed => AcceptAction::Skip,
        AcceptEvent::NotReady => AcceptAction::Skip,
        AcceptEvent::Ready => AcceptAction::AcceptConnection,
    }
}

/// One decision of the accept loop.
pub fn accept_step(ev: &AcceptEvent) -> (a: AcceptAction)
    ensures
        a == spec_accept_step(*ev),
{
    match ev {
        AcceptEvent::ShutdownObserved => AcceptAction::Exit,
        AcceptEvent::PollFailed => AcceptAction::Skip,
        AcceptEvent::NotReady => AcceptAction::Skip,
        AcceptEvent::Ready => AcceptAction::AcceptConnection,
    }
}

/// Poll wait for the accept loop: the configured window where the OS
/// interface can represent it, else no wait at all — fall back to
/// non-blocking rather than ever block indefinitely.
pub fn accept_poll_timeout(representable: Option<u64>) -> (t: u64)
    ensures
        match representable {
            Some(m) => t == m,
            None => t == 0,
        },
{
    match representable {
        Some(m) => m,
        None => 0,
    }
}

/// Size of the worker pool: one worker per available hardware execution
/// context, falling back to a single worker when the machine cannot say
/// how many it has.
pub fn worker_pool_size(available: Option<usize>) -> (n: usize)
    requires
        match available {
            Some(k) => k >= 1,
            None => true,
        },
    ensures
        match available {
            Some(k) => n == k,
            None => n == 1,
        },
        n >= 1,
{
    match available {
        Some(k) => k,
        None => 1,
    }
}

/// What a worker observed at the head of one iteration: the shutdown
/// flag is consulted first; only when it is clear does the worker wait
/// on the connection channel.
#[derive(Clone, Copy, Debug, PartialEq, Eq, Structural)]
pub enum WorkerEvent {
    /// The shutdown flag was set.
    ShutdownObserved,
    /// A connection handle arrived on the channel.
    Received,
    /// The receive window elapsed empty.
    RecvTimedOut,
    /// The channel is empty and the sending side is gone.
    ChannelClosed,
}

/// What a worker does next.
#[derive(Clone, Copy, Debug, PartialEq, Eq, Structural)]
pub enum WorkerAction {
    /// Leave the loop for good.
    Exit,
    /// Run the per-connection pipeline on the received handle.
    Handle,
    /// Start the next iteration, re-checking the shutdown flag.
    Retry,
}

/// Decision table of a worker: exit on shutdown or a closed channel,
/// handle exactly what was received, and re-check shutdown after every
/// empty receive window.
pub open spec fn spec_worker_step(ev: WorkerEvent) -> WorkerAction {
    match ev {
        WorkerEvent::ShutdownObserved => WorkerAction::Exit,
        WorkerEvent::Received => WorkerAction::Handle,
        WorkerEvent::RecvTimedOut => WorkerAction::Retry,
        WorkerEvent::ChannelClosed => WorkerAction::Exit,
    }
}

/// One decision of a worker's loop.
pub fn worker_step(ev: &WorkerEvent) -> (a: WorkerAction)
    ensures
        a == spec_worker_step(*ev),
{
    match ev {
        WorkerEvent::ShutdownObserved => WorkerAction::Exit,
        WorkerEvent::Received => WorkerAction::Handle,
        WorkerEvent::RecvTimedOut => WorkerAction::Retry,
        WorkerEvent::ChannelClosed => WorkerAction::Exit,
    }
}

/// The coordinator's phases: `Running` until the first interrupt
/// requests a shutdown; a second interrupt while already requested
/// terminates the process at once.
#[derive(Clone, Copy, Debug, PartialEq, Eq, Structural)]
pub enum ServerPhase {
    Running,
    ShutdownRequested,
    Terminated,
}

/// What the interrupt handler does.
#[derive(Clone, Copy, Debug, PartialEq, Eq, Structural)]
pub enum SignalAction {
    /// Flip the shared shutdown flag; everything else is deferred to the
    /// main thread's post-loop sequence.
    RequestShutdown,
    /// Best-effort telemetry flush, then immediate process termination.
    FlushAndTerminate,
}

/// Transition table of the shutdown coordinator, driven by interrupts.
pub open spec fn spec_interrupt_step(p: ServerPhase) -> (ServerPhase, SignalAction) {
    match p {
        ServerPhase::Running => (ServerPhase::ShutdownRequested, SignalAction::RequestShutdown),
        ServerPhase::ShutdownRequested => (ServerPhase::Terminated, SignalAction::FlushAndTerminate),
        ServerPhase::Terminated => (ServerPhase::Terminated, SignalAction::FlushAndTerminate),
    }
}

/// One interrupt arriving in the given phase.
pub fn interrupt_step(p: &ServerPhase) -> (r: (ServerPhase, SignalAction))
    ensures
        r == spec_interrupt_step(*p),
{
    match p {
        ServerPhase::Running => (ServerPhase::ShutdownRequested, SignalAction::RequestShutdown),
        ServerPhase::ShutdownRequested => (
            ServerPhase::Terminated,
            SignalAction::FlushAndTerminate,
        ),
        ServerPhase::Terminated => (ServerPhase::Terminated, SignalAction::FlushAndTerminate),
    }
}

/// Once the shutdown flag is observed set, the accept loop exits, and
/// accepting a connection happens only on a `Ready` event — an event the
/// loop builds only while the flag is clear.  So after the flag becomes
/// true no new connection is accepted.
pub proof fn lemma_shutdown_stops_accepting()
    ensures
        spec_accept_step(AcceptEvent::ShutdownObserved) == AcceptAction::Exit,
        forall|ev: AcceptEvent|
            spec_accept_step(ev) == AcceptAction::AcceptConnection ==> ev == AcceptEvent::Ready,
{
}

/// Once the shutdown flag is observed set, every worker exits its loop;
/// a worker handles a connection only on a `Received` event, built while
/// the flag was clear.
pub proof fn lemma_shutdown_stops_workers()
    ensures
        spec_worker_step(WorkerEvent::ShutdownObserved) == WorkerAction::Exit,
        forall|ev: WorkerEvent|
            spec_worker_step(ev) == WorkerAction::Handle ==> ev == WorkerEvent::Received,
{
}

/// The shutdown flag flips false to true exactly once: only the
/// `Running` phase requests a shutdown, and no transition leads back to
/// `Running`.
pub proof fn lemma_shutdown_requested_once()
    ensures
        forall|p: ServerPhase|
            (#[trigger] spec_interrupt_step(p)).1 == SignalAction::RequestShutdown <==> p
                == ServerPhase::Running,
        forall|p: ServerPhase| (#[trigger] spec_interrupt_step(p)).0 != ServerPhase::Running,
{
}

} // verus!
