//! Daemon internal events and the queues that carry them.

use vstd::prelude::*;
use std::collections::VecDeque;
use crate::constants::MAX_IPC_EVENT_BACKLOG;
use crate::inotify::EventMaskWrapper;

verus! {

/// `std::time::Instant`: a reading of the monotonic clock.
#[verifier::external_type_specification]
#[verifier::external_body]
pub struct ExInstant(std::time::Instant);

/// `Clone` of `std::time::Instant`: the type is `Copy`, and std documents
/// its clone as returning an identical reading.
pub assume_specification[ <std::time::Instant as Clone>::clone ](t: &std::time::Instant) -> (r: std::time::Instant)
    ensures
        r == *t,
;

/// `std::time::Instant::now()`. It reads the clock, so nothing is promised
/// of the value.
#[verifier::external_body]
pub(crate) fn instant_now() -> (t: std::time::Instant) {
    std::time::Instant::now()
}

/// Kinds of process events reported by the kernel's process connector.
#[derive(Debug, Clone, Copy, PartialEq, Eq, Structural)]
pub enum ProcEventType {
    Fork,
    Exec,
    Exit,
    Other,
}

/// A process event: what happened, and to which process.
#[derive(Debug, Clone, Copy, PartialEq, Eq, Structural)]
pub struct ProcEvent {
    pub event_type: ProcEventType,
    pub pid: i32,
}

/// Daemon internal events
#[derive(Debug, Clone)]
pub enum EventType {
    /// occurs every n seconds
    Ping,
    /// sent on daemon startup (after initialization)
    Startup,
    /// sent on daemon shutdown (before finalization)
    Shutdown,
    /// advice to plugins, to prime their caches now
    PrimeCaches,
    /// advice to plugins to do janitorial tasks now
    DoHousekeeping,
    /// advice to plugins to gather statistics and performance metrics
    GatherStatsAndMetrics,
    /// occurs *after* the daemon has successfully reloaded its configuration
    ConfigurationReloaded,
    /// occurs when the state of a tracked process changed
    TrackedProcessChanged(ProcEvent),
    /// sent by the fork bomb detector hook, when a fork() storm occurs
    ForkBombDetected,
    /// sent when the system enters an idle period
    EnterIdle,
    /// a watched file or directory changed
    InotifyEvent(EventMaskWrapper, String),
    /// sent when we reach the low threshold of *free* memory watermark
    FreeMemoryLowWatermark,
    /// sent when we reach the high threshold of *free* memory watermark
    FreeMemoryHighWatermark,
    /// sent when we reach the low threshold of *available* memory watermark
    AvailableMemoryLowWatermark,
    /// sent when we reach the high threshold of *available* memory watermark
    AvailableMemoryHighWatermark,
    /// sent when the system is swapping out data
    SystemIsSwapping,
    /// sent when the system is no longer swapping out data
    SystemRecoveredFromSwap,
}

/// Represents an event
#[derive(Debug, Clone)]
pub struct InternalEvent {
    pub timestamp: std::time::Instant,
    pub event_type: EventType,
}

impl InternalEvent {
    /// Creates a new `InternalEvent`, stamped with the current time.
    pub fn new(event_type: EventType) -> (e: InternalEvent)
        ensures
            e.event_type == event_type,
    {
        InternalEvent { timestamp: instant_now(), event_type }
    }
}

/// A copy of an event type.
pub fn clone_event_type(e: &EventType) -> (r: EventType)
    ensures
        r == *e,
{
    match e {
        EventType::Ping => EventType::Ping,
        EventType::Startup => EventType::Startup,
        EventType::Shutdown => EventType::Shutdown,
        EventType::PrimeCaches => EventType::PrimeCaches,
        EventType::DoHousekeeping => EventType::DoHousekeeping,
        EventType::GatherStatsAndMetrics => EventType::GatherStatsAndMetrics,
        EventType::ConfigurationReloaded => EventType::ConfigurationReloaded,
        EventType::TrackedProcessChanged(p) => EventType::TrackedProcessChanged(*p),
        EventType::ForkBombDetected => EventType::ForkBombDetected,
        EventType::EnterIdle => EventType::EnterIdle,
        EventType::InotifyEvent(m, path) => EventType::InotifyEvent(*m, path.clone()),
        EventType::FreeMemoryLowWatermark => EventType::FreeMemoryLowWatermark,
        EventType::FreeMemoryHighWatermark => EventType::FreeMemoryHighWatermark,
        EventType::AvailableMemoryLowWatermark => EventType::AvailableMemoryLowWatermark,
        EventType::AvailableMemoryHighWatermark => EventType::AvailableMemoryHighWatermark,
        EventType::SystemIsSwapping => EventType::SystemIsSwapping,
        EventType::SystemRecoveredFromSwap => EventType::SystemRecoveredFromSwap,
    }
}

/// The event types of a sequence of events.
pub open spec fn event_types(s: Seq<InternalEvent>) -> Seq<EventType> {
    s.map_values(|e: InternalEvent| e.event_type)
}

/// Queue an event for later dispatch to plugins and hooks.
pub fn queue_internal_event(event_type: EventType, queue: &mut VecDeque<InternalEvent>)
    ensures
        final(queue)@.len() == old(queue)@.len() + 1,
        final(queue)@.subrange(0, old(queue)@.len() as int) == old(queue)@,
        final(queue)@.last().event_type == event_type,
{
    let event = InternalEvent::new(event_type);
    queue.push_back(event);
    proof {
        assert(queue@.subrange(0, old(queue)@.len() as int) =~= old(queue)@);
    }
}

/// Take the oldest pending event off the queue.
pub fn next_internal_event(queue: &mut VecDeque<InternalEvent>) -> (r: Option<InternalEvent>)
    ensures
        match r {
            Some(e) => old(queue)@.len() > 0 && e == old(queue)@[0] && final(queue)@ == old(queue)@.drop_first(),
            None => old(queue)@.len() == 0 && final(queue)@ == old(queue)@,
        },
{
    let r = queue.pop_front();
    proof {
        if r is Some {
            assert(old(queue)@.subrange(1, old(queue)@.len() as int) =~= old(queue)@.drop_first());
        }
    }
    r
}

/// The last `n` elements of `s`, in order, or all of them if there are
/// fewer.
pub open spec fn last_n<A>(s: Seq<A>, n: nat) -> Seq<A> {
    if s.len() <= n {
        s
    } else {
        s.subrange(s.len() - n, s.len() as int)
    }
}

/// Hand a dispatched event on to connected IPC clients: the backlog is a
/// ring buffer of at most `MAX_IPC_EVENT_BACKLOG` events; once it is full,
/// the oldest events make room for the new one.
pub fn forward_to_ipc_backlog(backlog: &mut VecDeque<InternalEvent>, event: InternalEvent)
    ensures
        final(backlog)@ == last_n(old(backlog)@.push(event), MAX_IPC_EVENT_BACKLOG as nat),
{
    let ghost all = old(backlog)@.push(event);
    backlog.push_back(event);
    assert(backlog@ =~= all.subrange(0, all.len() as int));
    while backlog.len() > MAX_IPC_EVENT_BACKLOG
        invariant
            all.len() >= backlog@.len(),
            backlog@.len() < all.len() ==> backlog@.len() >= MAX_IPC_EVENT_BACKLOG,
            backlog@ == all.subrange(all.len() - backlog@.len(), all.len() as int),
        decreases backlog@.len(),
    {
        let _ = backlog.pop_front();
        proof {
            assert(backlog@ =~= all.subrange(all.len() - backlog@.len(), all.len() as int));
        }
    }
    proof {
        if all.len() <= MAX_IPC_EVENT_BACKLOG {
            assert(backlog@ =~= all);
        }
    }
}

/// The events that one turn of the daemon's main loop queues, in order:
/// `ConfigurationReloaded` after a successful reload of the configuration,
/// `DoHousekeeping` on SIGUSR1, `PrimeCaches` on SIGUSR2, and `Ping`
/// followed by `GatherStatsAndMetrics` when the ping interval has elapsed.
pub open spec fn main_loop_event_types(reloaded: bool, usr1: bool, usr2: bool, ping_due: bool) -> Seq<EventType> {
    (if reloaded { seq![EventType::ConfigurationReloaded] } else { Seq::empty() })
    + (if usr1 { seq![EventType::DoHousekeeping] } else { Seq::empty() })
    + (if usr2 { seq![EventType::PrimeCaches] } else { Seq::empty() })
    + (if ping_due { seq![EventType::Ping, EventType::GatherStatsAndMetrics] } else { Seq::empty() })
}

/// Queue the events of one turn of the main loop; see
/// `main_loop_event_types`.
pub fn queue_main_loop_events(reloaded: bool, usr1: bool, usr2: bool, ping_due: bool, queue: &mut VecDeque<InternalEvent>)
    ensures
        final(queue)@.subrange(0, old(queue)@.len() as int) == old(queue)@,
        event_types(final(queue)@.subrange(old(queue)@.len() as int, final(queue)@.len() as int)) == main_loop_event_types(reloaded, usr1, usr2, ping_due),
{
    let ghost start = queue@;
    let ghost mut added: Seq<EventType> = Seq::empty();
    if reloaded {
        queue_internal_event(EventType::ConfigurationReloaded, queue);
        proof { added = added.push(EventType::ConfigurationReloaded); }
    }
    assert(event_types(queue@.subrange(start.len() as int, queue@.len() as int)) =~= added);
    if usr1 {
        queue_internal_event(EventType::DoHousekeeping, queue);
        proof { added = added.push(EventType::DoHousekeeping); }
    }
    assert(event_types(queue@.subrange(start.len() as int, queue@.len() as int)) =~= added) by {
        assert(queue@.subrange(0, start.len() as int) =~= start);
    }
    if usr2 {
        queue_internal_event(EventType::PrimeCaches, queue);
        proof { added = added.push(EventType::PrimeCaches); }
    }
    assert(event_types(queue@.subrange(start.len() as int, queue@.len() as int)) =~= added) by {
        assert(queue@.subrange(0, start.len() as int) =~= start);
    }
    if ping_due {
        queue_internal_event(EventType::Ping, queue);
        queue_internal_event(EventType::GatherStatsAndMetrics, queue);
        proof { added = added.push(EventType::Ping).push(EventType::GatherStatsAndMetrics); }
    }
    assert(event_types(queue@.subrange(start.len() as int, queue@.len() as int)) =~= added) by {
        assert(queue@.subrange(0, start.len() as int) =~= start);
    }
    assert(added =~= main_loop_event_types(reloaded, usr1, usr2, ping_due));
    assert(queue@.subrange(0, start.len() as int) =~= start);
}

/// The event queue is first in, first out: after queueing `e`, the next
/// event taken off is the oldest one that was already waiting, or `e` itself
/// if none was, and the events behind it keep their order.
pub proof fn law_queue_fifo(queue: Seq<InternalEvent>, e: InternalEvent)
    ensures
        queue.push(e)[0] == (if queue.len() > 0 { queue[0] } else { e }),
        queue.push(e).drop_first() == (if queue.len() > 0 { queue.drop_first().push(e) } else { Seq::<InternalEvent>::empty() }),
{
    if queue.len() > 0 {
        assert(queue.push(e).drop_first() =~= queue.drop_first().push(e));
    } else {
        assert(queue.push(e).drop_first() =~= Seq::<InternalEvent>::empty());
    }
}

} // verus!
