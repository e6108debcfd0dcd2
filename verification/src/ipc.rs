//! The daemon's side of the IPC protocol used by `precachedtop` and
//! `precachedctl`: the messages, and the reply owed to each request.

use vstd::prelude::*;
use std::collections::VecDeque;
use crate::clock::{Timestamp, utc_now};
use crate::events::EventType;
use crate::prefetch::{IOtracePrefetcher, ThreadState};
use crate::process_tracker::{ProcessTracker, TrackedProcess};
use crate::tracer::ActiveTracers;

verus! {

/// Represents a process
#[derive(Debug, Clone)]
pub struct ProcessEntry {
    /// The `pid` of the process
    pub pid: i32,
    pub comm: String,
}

/// Represents an in-flight trace
#[derive(Debug, Clone)]
pub struct TracerEntry {
    pub start_time: Timestamp,
    pub trace_time_expired: bool,
    pub exe: String,
}

/// The states of the prefetcher's worker threads at a point in time.
#[derive(Debug, Clone)]
pub struct PrefetchStats {
    pub datetime: Timestamp,
    pub thread_states: Vec<ThreadState>,
}

/// An internal event as reported to IPC clients.
#[derive(Debug, Clone)]
pub struct InternalEvent {
    pub datetime: Timestamp,
    pub name: String,
}

/// A statistics record.
#[derive(Debug, Clone)]
pub struct Statistics {
    pub datetime: Timestamp,
}

/// The commands of the IPC protocol.
#[derive(Debug)]
pub enum IpcCommand {
    Ping,
    Pong,

    Connect,
    ConnectedSuccessfully,
    Close,

    RequestTrackedProcesses,
    SendTrackedProcesses(Vec<ProcessEntry>),

    RequestInFlightTracers,
    SendInFlightTracers(Vec<TracerEntry>),

    RequestPrefetchStatus,
    SendPrefetchStatus(PrefetchStats),

    RequestInternalEvents,
    SendInternalEvents(Vec<InternalEvent>),

    RequestCachedFiles,
    SendCachedFiles(Vec<String>),

    RequestStatistics,
    SendStatistics(Vec<Statistics>),
}

/// A message of the IPC protocol: a command and when it was sent.
#[derive(Debug)]
pub struct IpcMessage {
    pub datetime: Timestamp,
    pub command: IpcCommand,
}

impl IpcMessage {
    /// A message carrying `command`, stamped with the current time.
    pub fn new(command: IpcCommand) -> (m: IpcMessage)
        ensures
            m.command == command,
    {
        IpcMessage { datetime: utc_now(), command }
    }
}

/// An internal event on its way to IPC clients.
#[derive(Debug)]
pub struct IpcEvent {
    pub datetime: Timestamp,
    pub event: EventType,
}

impl IpcEvent {
    /// An IPC event for `event`, stamped with the current time.
    pub fn new(event: EventType) -> (e: IpcEvent)
        ensures
            e.event == event,
    {
        IpcEvent { datetime: utc_now(), event }
    }
}

/// What the daemon does with a received command.
#[derive(Debug, Clone, Copy, PartialEq, Eq, Structural)]
pub enum IpcReply {
    /// Reply `ConnectedSuccessfully`.
    ConnectedSuccessfully,
    /// The client disconnected; no reply.
    ClientClosed,
    /// Reply with the tracked processes.
    SendTrackedProcesses,
    /// Reply with the in-flight traces.
    SendInFlightTracers,
    /// Reply with the prefetcher's thread states.
    SendPrefetchStatus,
    /// Reply with the pending internal events, draining them.
    SendInternalEvents,
    /// Reply with the cached files.
    SendCachedFiles,
    /// Reply with one statistics record per pending event, draining them.
    SendStatistics,
    /// The command is not one a client sends; no reply.
    Unknown,
}

/// The reply owed to a command.
pub open spec fn reply_for(command: IpcCommand) -> IpcReply {
    match command {
        IpcCommand::Connect => IpcReply::ConnectedSuccessfully,
        IpcCommand::Close => IpcReply::ClientClosed,
        IpcCommand::RequestTrackedProcesses => IpcReply::SendTrackedProcesses,
        IpcCommand::RequestInFlightTracers => IpcReply::SendInFlightTracers,
        IpcCommand::RequestPrefetchStatus => IpcReply::SendPrefetchStatus,
        IpcCommand::RequestInternalEvents => IpcReply::SendInternalEvents,
        IpcCommand::RequestCachedFiles => IpcReply::SendCachedFiles,
        IpcCommand::RequestStatistics => IpcReply::SendStatistics,
        _ => IpcReply::Unknown,
    }
}

/// Whether answering with `r` drains the backlog of internal events.
pub open spec fn drains_backlog(r: IpcReply) -> bool {
    r is SendInternalEvents || r is SendStatistics
}

/// Every request is answered with the data it asks for: the tracked
/// processes for `RequestTrackedProcesses`, the in-flight traces for
/// `RequestInFlightTracers`, the prefetcher's state for
/// `RequestPrefetchStatus`, the internal events for `RequestInternalEvents`,
/// the cached files for `RequestCachedFiles` and the statistics for
/// `RequestStatistics`; a connection request is acknowledged and a close
/// ends the session without a reply. Only the requests for internal events
/// and for statistics drain the backlog, and any other command is not
/// answered.
pub proof fn law_requests_answered_in_kind(c: IpcCommand)
    ensures
        c is Connect ==> reply_for(c) == IpcReply::ConnectedSuccessfully,
        c is Close ==> reply_for(c) == IpcReply::ClientClosed,
        c is RequestTrackedProcesses ==> reply_for(c) == IpcReply::SendTrackedProcesses,
        c is RequestInFlightTracers ==> reply_for(c) == IpcReply::SendInFlightTracers,
        c is RequestPrefetchStatus ==> reply_for(c) == IpcReply::SendPrefetchStatus,
        c is RequestInternalEvents ==> reply_for(c) == IpcReply::SendInternalEvents,
        c is RequestCachedFiles ==> reply_for(c) == IpcReply::SendCachedFiles,
        c is RequestStatistics ==> reply_for(c) == IpcReply::SendStatistics,
        drains_backlog(reply_for(c)) <==> (c is RequestInternalEvents || c is RequestStatistics),
        (c is Ping || c is Pong || c is ConnectedSuccessfully || c is SendTrackedProcesses || c is SendInFlightTracers
            || c is SendPrefetchStatus || c is SendInternalEvents || c is SendCachedFiles || c is SendStatistics)
            ==> reply_for(c) == IpcReply::Unknown,
{
}

/// The reply owed to a received command.
pub fn ipc_reply(command: &IpcCommand) -> (r: IpcReply)
    ensures
        r == reply_for(*command),
{
    match command {
        IpcCommand::Connect => IpcReply::ConnectedSuccessfully,
        IpcCommand::Close => IpcReply::ClientClosed,
        IpcCommand::RequestTrackedProcesses => IpcReply::SendTrackedProcesses,
        IpcCommand::RequestInFlightTracers => IpcReply::SendInFlightTracers,
        IpcCommand::RequestPrefetchStatus => IpcReply::SendPrefetchStatus,
        IpcCommand::RequestInternalEvents => IpcReply::SendInternalEvents,
        IpcCommand::RequestCachedFiles => IpcReply::SendCachedFiles,
        IpcCommand::RequestStatistics => IpcReply::SendStatistics,
        _ => IpcReply::Unknown,
    }
}

/// One entry per tracked process: its pid and command name.
pub fn tracked_process_entries(tracker: &ProcessTracker) -> (r: Vec<ProcessEntry>)
    ensures
        r@.len() == tracker.tracked_processes@.len(),
        forall|i: int| 0 <= i < r@.len() ==> #[trigger] r@[i].pid == tracker.tracked_processes@[i].1.pid
            && r@[i].comm == tracker.tracked_processes@[i].1.comm,
{
    let mut r: Vec<ProcessEntry> = Vec::new();
    let mut i: usize = 0;
    while i < tracker.tracked_processes.len()
        invariant
            i <= tracker.tracked_processes@.len(),
            r@.len() == i,
            forall|j: int| 0 <= j < i ==> #[trigger] r@[j].pid == tracker.tracked_processes@[j].1.pid
                && r@[j].comm == tracker.tracked_processes@[j].1.comm,
        decreases tracker.tracked_processes@.len() - i,
    {
        let p: &TrackedProcess = &tracker.tracked_processes[i].1;
        r.push(ProcessEntry { pid: p.pid, comm: p.comm.clone() });
        i = i + 1;
    }
    r
}

/// One entry per in-flight trace: whether its tracing period elapsed and
/// the traced executable. The start time reported is the time of the reply.
pub fn inflight_tracer_entries(tracers: &ActiveTracers) -> (r: Vec<TracerEntry>)
    ensures
        r@.len() == tracers.tracers@.len(),
        forall|i: int| 0 <= i < r@.len() ==> #[trigger] r@[i].trace_time_expired == tracers.tracers@[i].1.trace_time_expired
            && r@[i].exe == tracers.tracers@[i].1.trace_log.exe,
{
    let mut r: Vec<TracerEntry> = Vec::new();
    let mut i: usize = 0;
    while i < tracers.tracers.len()
        invariant
            i <= tracers.tracers@.len(),
            r@.len() == i,
            forall|j: int| 0 <= j < i ==> #[trigger] r@[j].trace_time_expired == tracers.tracers@[j].1.trace_time_expired
                && r@[j].exe == tracers.tracers@[j].1.trace_log.exe,
        decreases tracers.tracers@.len() - i,
    {
        let d = &tracers.tracers[i].1;
        r.push(TracerEntry {
            start_time: utc_now(),
            trace_time_expired: d.trace_time_expired,
            exe: d.trace_log.exe.clone(),
        });
        i = i + 1;
    }
    r
}

/// A copy of a thread state.
pub fn clone_thread_state(s: &ThreadState) -> (r: ThreadState)
    ensures
        r == *s,
{
    match s {
        ThreadState::Uninitialized => ThreadState::Uninitialized,
        ThreadState::Idle => ThreadState::Idle,
        ThreadState::Error(p) => ThreadState::Error(p.clone()),
        ThreadState::PrefetchedFile(p) => ThreadState::PrefetchedFile(p.clone()),
        ThreadState::PrefetchedFileMetadata(p) => ThreadState::PrefetchedFileMetadata(p.clone()),
        ThreadState::UnmappedFile(p) => ThreadState::UnmappedFile(p.clone()),
    }
}

/// The prefetcher's thread states, stamped with the current time.
pub fn prefetch_stats(prefetcher: &IOtracePrefetcher) -> (r: PrefetchStats)
    ensures
        r.thread_states@ == prefetcher.thread_states@,
{
    let mut v: Vec<ThreadState> = Vec::new();
    let mut i: usize = 0;
    while i < prefetcher.thread_states.len()
        invariant
            i <= prefetcher.thread_states@.len(),
            v@ == prefetcher.thread_states@.subrange(0, i as int),
        decreases prefetcher.thread_states@.len() - i,
    {
        v.push(clone_thread_state(&prefetcher.thread_states[i]));
        proof {
            assert(prefetcher.thread_states@.subrange(0, i + 1) =~= prefetcher.thread_states@.subrange(0, i as int).push(prefetcher.thread_states@[i as int]));
        }
        i = i + 1;
    }
    proof {
        assert(prefetcher.thread_states@.subrange(0, prefetcher.thread_states@.len() as int) =~= prefetcher.thread_states@);
    }
    PrefetchStats { datetime: utc_now(), thread_states: v }
}

/// Drain the pending events: the event types in order, with the queue left
/// empty.
pub fn drain_event_types(queue: &mut VecDeque<crate::events::InternalEvent>) -> (r: Vec<EventType>)
    ensures
        final(queue)@.len() == 0,
        r@ == crate::events::event_types(old(queue)@),
{
    let mut r: Vec<EventType> = Vec::new();
    let ghost orig = queue@;
    let ghost mut taken: nat = 0;
    while queue.len() > 0
        invariant
            taken <= orig.len(),
            queue@ == orig.subrange(taken as int, orig.len() as int),
            r@ == crate::events::event_types(orig.subrange(0, taken as int)),
        decreases queue@.len(),
    {
        let e = queue.pop_front();
        match e {
            Some(ev) => {
                proof {
                    assert(ev == orig[taken as int]);
                    assert(orig.subrange(0, (taken + 1) as int) =~= orig.subrange(0, taken as int).push(ev));
                    assert(crate::events::event_types(orig.subrange(0, (taken + 1) as int)) =~= crate::events::event_types(orig.subrange(0, taken as int)).push(ev.event_type));
                    taken = taken + 1;
                    assert(queue@ =~= orig.subrange(taken as int, orig.len() as int));
                }
                r.push(ev.event_type);
            }
            None => {}
        }
    }
    proof {
        assert(orig.subrange(0, taken as int) =~= orig);
    }
    r
}

/// Handle a received command against the backlog of internal events: the
/// reply owed to it, and the event types that go into that reply. A request
/// for the internal events or for statistics drains the backlog and hands
/// its events on, oldest first; every other command leaves the backlog as it
/// is and hands on none.
pub fn handle_request(command: &IpcCommand, backlog: &mut VecDeque<crate::events::InternalEvent>) -> (r: (IpcReply, Vec<EventType>))
    ensures
        r.0 == reply_for(*command),
        drains_backlog(r.0) ==> final(backlog)@.len() == 0 && r.1@ == crate::events::event_types(old(backlog)@),
        !drains_backlog(r.0) ==> final(backlog)@ == old(backlog)@ && r.1@.len() == 0,
{
    let reply = ipc_reply(command);
    match reply {
        IpcReply::SendInternalEvents => {
            let drained = drain_event_types(backlog);
            (reply, drained)
        },
        IpcReply::SendStatistics => {
            let drained = drain_event_types(backlog);
            (reply, drained)
        },
        _ => (reply, Vec::new()),
    }
}

/// Drain the pending events into statistics records, one per event.
pub fn drain_statistics(queue: &mut VecDeque<crate::events::InternalEvent>) -> (r: Vec<Statistics>)
    ensures
        final(queue)@.len() == 0,
        r@.len() == old(queue)@.len(),
{
    let types = drain_event_types(queue);
    let mut r: Vec<Statistics> = Vec::new();
    let mut i: usize = 0;
    while i < types.len()
        invariant
            i <= types@.len(),
            r@.len() == i,
        decreases types@.len() - i,
    {
        r.push(Statistics { datetime: utc_now() });
        i = i + 1;
    }
    r
}

} // verus!
