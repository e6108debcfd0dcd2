//! The daemon's handling of its events: a process event goes to the hooks
//! (process tracker, tracer, prefetcher), and every queued internal event
//! goes, in order, to the hooks and then to the backlog of events kept for
//! IPC clients.

use vstd::prelude::*;
use std::collections::VecDeque;
use crate::constants::MAX_IPC_EVENT_BACKLOG;
use crate::events::{
    EventType, InternalEvent, ProcEvent, ProcEventType, clone_event_type, event_types, forward_to_ipc_backlog, last_n,
    next_internal_event,
};
use crate::prefetch::{IOtracePrefetcher, ThreadState};
use crate::process_tracker::{ProcessTracker, TrackedProcess, spec_mark_dead, spec_prune};
use crate::tracer::{ActiveTracers, TracerReaction, tracer_reaction};

verus! {

/// The tracked processes after the hooks saw the events `es`: each `Ping`
/// prunes the dead processes.
pub open spec fn tracked_after(m: Map<i32, TrackedProcess>, es: Seq<EventType>) -> Map<i32, TrackedProcess>
    decreases es.len(),
{
    if es.len() == 0 {
        m
    } else {
        let before = tracked_after(m, es.drop_last());
        match es.last() {
            EventType::Ping => spec_prune(before),
            _ => before,
        }
    }
}

/// Whether `es` holds an `EnterIdle` event.
pub open spec fn enters_idle(es: Seq<EventType>) -> bool {
    exists|i: int| 0 <= i < es.len() && es[i] is EnterIdle
}

/// Pruning the dead processes twice prunes no more than once.
pub proof fn law_prune_idempotent(m: Map<i32, TrackedProcess>)
    ensures
        spec_prune(spec_prune(m)) == spec_prune(m),
{
    let p = spec_prune(m);
    assert(spec_prune(p) =~= p);
}

/// However many `Ping` events the hooks see, the tracked processes are
/// pruned as by one: the dead ones are gone, the rest are kept.
pub proof fn law_pings_prune_once(m: Map<i32, TrackedProcess>, es: Seq<EventType>)
    ensures
        tracked_after(m, es) == (if exists|i: int| 0 <= i < es.len() && es[i] is Ping { spec_prune(m) } else { m }),
    decreases es.len(),
{
    if es.len() > 0 {
        let init = es.drop_last();
        law_pings_prune_once(m, init);
        law_prune_idempotent(m);
        if exists|i: int| 0 <= i < init.len() && init[i] is Ping {
            let i = choose|i: int| 0 <= i < init.len() && init[i] is Ping;
            assert(es[i] == init[i]);
        }
        if exists|i: int| 0 <= i < es.len() && es[i] is Ping {
            let i = choose|i: int| 0 <= i < es.len() && es[i] is Ping;
            if i < init.len() {
                assert(init[i] == es[i]);
            }
        }
    }
}

proof fn lemma_last_n_push<A>(s: Seq<A>, e: A, n: nat)
    requires
        n > 0,
    ensures
        last_n(last_n(s, n).push(e), n) == last_n(s.push(e), n),
{
    let t = s.push(e);
    if s.len() < n {
    } else {
        let l = last_n(s, n);
        assert(l.len() == n);
        assert(l.push(e).subrange(1, (n + 1) as int) =~= t.subrange(t.len() - n, t.len() as int));
    }
}

/// Dispatch every queued internal event, oldest first: the process tracker
/// prunes dead processes on `Ping`, the prefetcher marks its threads idle on
/// `EnterIdle`, and each event is then handed to the IPC backlog, a ring
/// buffer that keeps the newest `MAX_IPC_EVENT_BACKLOG` events. Returns the dispatched
/// event types, in order, for the parts of the daemon that run outside the
/// library.
pub fn process_internal_events(
    queue: &mut VecDeque<InternalEvent>,
    backlog: &mut VecDeque<InternalEvent>,
    tracker: &mut ProcessTracker,
    prefetcher: &mut IOtracePrefetcher,
) -> (dispatched: Vec<EventType>)
    requires
        old(tracker).wf(),
    ensures
        final(queue)@.len() == 0,
        dispatched@ == event_types(old(queue)@),
        final(backlog)@ == (if old(queue)@.len() == 0 {
            old(backlog)@
        } else {
            last_n(old(backlog)@ + old(queue)@, MAX_IPC_EVENT_BACKLOG as nat)
        }),
        final(tracker).wf(),
        final(tracker).view_map() == tracked_after(old(tracker).view_map(), event_types(old(queue)@)),
        final(prefetcher).prefetched_programs == old(prefetcher).prefetched_programs,
        final(prefetcher).thread_states@.len() == old(prefetcher).thread_states@.len(),
        forall|i: int| 0 <= i < final(prefetcher).thread_states@.len() ==> #[trigger] final(prefetcher).thread_states@[i] == (
            if enters_idle(event_types(old(queue)@)) { ThreadState::Idle } else { old(prefetcher).thread_states@[i] }),
{
    let ghost q0 = queue@;
    let ghost b0 = backlog@;
    let ghost m0 = tracker.view_map();
    let ghost s0 = prefetcher.thread_states@;
    let total = queue.len();
    let mut dispatched: Vec<EventType> = Vec::new();
    let mut k: usize = 0;
    proof {
        assert(q0.subrange(0, 0) =~= Seq::<InternalEvent>::empty());
        assert(b0 + q0.subrange(0, 0) =~= b0);
        assert(event_types(q0.subrange(0, 0)) =~= Seq::<EventType>::empty());
        assert(q0.skip(0) =~= q0);
    }
    loop
        invariant
            k <= q0.len(),
            total == q0.len(),
            queue@ == q0.skip(k as int),
            dispatched@ == event_types(q0.subrange(0, k as int)),
            backlog@ == (if k == 0 { b0 } else { last_n(b0 + q0.subrange(0, k as int), MAX_IPC_EVENT_BACKLOG as nat) }),
            tracker.wf(),
            tracker.view_map() == tracked_after(m0, event_types(q0.subrange(0, k as int))),
            prefetcher.prefetched_programs == old(prefetcher).prefetched_programs,
            prefetcher.thread_states@.len() == s0.len(),
            forall|i: int| 0 <= i < s0.len() ==> #[trigger] prefetcher.thread_states@[i] == (
                if enters_idle(event_types(q0.subrange(0, k as int))) { ThreadState::Idle } else { s0[i] }),
        ensures
            k == q0.len(),
            queue@.len() == 0,
            dispatched@ == event_types(q0.subrange(0, k as int)),
            backlog@ == (if k == 0 { b0 } else { last_n(b0 + q0.subrange(0, k as int), MAX_IPC_EVENT_BACKLOG as nat) }),
            tracker.wf(),
            tracker.view_map() == tracked_after(m0, event_types(q0.subrange(0, k as int))),
            prefetcher.prefetched_programs == old(prefetcher).prefetched_programs,
            prefetcher.thread_states@.len() == s0.len(),
            forall|i: int| 0 <= i < s0.len() ==> #[trigger] prefetcher.thread_states@[i] == (
                if enters_idle(event_types(q0.subrange(0, k as int))) { ThreadState::Idle } else { s0[i] }),
        decreases q0.len() - k,
    {
        match next_internal_event(queue) {
            None => {
                assert(q0.skip(k as int).len() == 0);
                break;
            },
            Some(event) => {
                let ghost pre = q0.subrange(0, k as int);
                let ghost post = q0.subrange(0, k + 1);
                proof {
                    assert(q0.skip(k as int)[0] == q0[k as int]);
                    assert(post =~= pre.push(q0[k as int]));
                    assert(event_types(post) =~= event_types(pre).push(event.event_type));
                    assert(event_types(post).drop_last() =~= event_types(pre));
                    assert(q0.skip(k as int).drop_first() =~= q0.skip(k + 1));
                    assert(b0 + post =~= (b0 + pre).push(event));
                    lemma_last_n_push(b0 + pre, event, MAX_IPC_EVENT_BACKLOG as nat);
                    assert(pre.len() == k);
                    if k == 0 {
                        assert(b0 + pre =~= b0);
                    }
                }
                tracker.internal_event(&event.event_type);
                let ghost states_before = prefetcher.thread_states@;
                prefetcher.internal_event(&event.event_type);
                proof {
                    assert forall|i: int| 0 <= i < s0.len() implies #[trigger] prefetcher.thread_states@[i] == (
                        if enters_idle(event_types(post)) { ThreadState::Idle } else { s0[i] }) by {
                        let ep = event_types(post);
                        let er = event_types(pre);
                        assert(ep[k as int] == event.event_type);
                        if enters_idle(er) {
                            let j = choose|j: int| 0 <= j < er.len() && er[j] is EnterIdle;
                            assert(ep[j] == er[j]);
                        }
                        if enters_idle(ep) && !(event.event_type is EnterIdle) {
                            let j = choose|j: int| 0 <= j < ep.len() && ep[j] is EnterIdle;
                            assert(j < k);
                            assert(er[j] == ep[j]);
                        }
                        assert(states_before[i] == (if enters_idle(er) { ThreadState::Idle } else { s0[i] }));
                    }
                }
                let ty = clone_event_type(&event.event_type);
                dispatched.push(ty);
                forward_to_ipc_backlog(backlog, event);
                k = k + 1;
            },
        }
    }
    proof {
        assert(q0.subrange(0, q0.len() as int) =~= q0);
    }
    dispatched
}

/// What the hooks still have to do with a process event once the library
/// has updated its state: the tracer's reaction (an `exec()` asks for a new
/// trace, which needs the process's executable and command line), and
/// whether the prefetcher replays the trace of the new program.
#[derive(Debug, Clone, Copy, PartialEq, Eq, Structural)]
pub struct ProcessEventActions {
    pub tracer: TracerReaction,
    pub replay: bool,
}

/// Hand a process event to the hooks: the process tracker starts tracking
/// on `exec()` (when the process could be inspected, as `process`) and marks
/// the process dead on exit, queueing `TrackedProcessChanged` when its
/// tracking changed; the tracer notes the exit of a traced process. Returns
/// what remains to be done: starting a trace on `exec()`, and replaying the
/// program's trace on `exec()`.
pub fn dispatch_process_event(
    event: ProcEvent,
    process: Option<TrackedProcess>,
    tracker: &mut ProcessTracker,
    tracers: &mut ActiveTracers,
    queue: &mut VecDeque<InternalEvent>,
) -> (r: ProcessEventActions)
    requires
        old(tracker).wf(),
        old(tracers).wf(),
    ensures
        final(tracker).wf(),
        final(tracker).view_map() == match event.event_type {
            ProcEventType::Exec => match process {
                Some(p) => old(tracker).view_map().insert(event.pid, p),
                None => old(tracker).view_map(),
            },
            ProcEventType::Exit => spec_mark_dead(old(tracker).view_map(), event.pid),
            _ => old(tracker).view_map(),
        },
        ({
            let changed = match event.event_type {
                ProcEventType::Exec => process is Some,
                ProcEventType::Exit => old(tracker).view_map().dom().contains(event.pid),
                _ => false,
            };
            if changed {
                &&& final(queue)@.len() == old(queue)@.len() + 1
                &&& final(queue)@.subrange(0, old(queue)@.len() as int) == old(queue)@
                &&& final(queue)@.last().event_type == EventType::TrackedProcessChanged(event)
            } else {
                final(queue)@ == old(queue)@
            }
        }),
        final(tracers).wf(),
        !(event.event_type is Exit) ==> final(tracers).tracers@ == old(tracers).tracers@,
        event.event_type is Exit ==> final(tracers).tracers@.len() == old(tracers).tracers@.len(),
        event.event_type is Exit ==> forall|i: int| 0 <= i < final(tracers).tracers@.len() && old(tracers).tracers@[i].0 != event.pid
            ==> #[trigger] final(tracers).tracers@[i] == old(tracers).tracers@[i],
        event.event_type is Exit ==> forall|i: int| 0 <= i < final(tracers).tracers@.len() && old(tracers).tracers@[i].0 == event.pid ==> {
            let n = #[trigger] final(tracers).tracers@[i];
            let o = old(tracers).tracers@[i];
            &&& n.0 == event.pid
            &&& n.1.start_time == o.1.start_time
            &&& n.1.trace_log == o.1.trace_log
            &&& n.1.trace_time_expired == o.1.trace_time_expired
            &&& n.1.process_exited
        },
        r.tracer == match event.event_type {
            ProcEventType::Exec => TracerReaction::TraceProcess,
            ProcEventType::Exit => TracerReaction::NotifyExit,
            _ => TracerReaction::Ignore,
        },
        r.replay == (event.event_type is Exec),
{
    tracker.process_event(event, process, queue);
    let tracer = tracer_reaction(&event);
    match tracer {
        TracerReaction::NotifyExit => {
            let _ = tracers.notify_exit(event.pid);
        },
        _ => {},
    }
    let replay = match event.event_type {
        ProcEventType::Exec => true,
        _ => false,
    };
    ProcessEventActions { tracer, replay }
}

/// The IPC backlog is a ring buffer: it holds at most
/// `MAX_IPC_EVENT_BACKLOG` events, and they are the newest ones, the tail of
/// the earlier backlog followed by the dispatched events, in order. Each
/// dispatched event stays whenever no more than `MAX_IPC_EVENT_BACKLOG`
/// events were dispatched after it.
pub proof fn law_backlog_keeps_newest(backlog: Seq<InternalEvent>, dispatched: Seq<InternalEvent>)
    ensures
        ({
            let all = backlog + dispatched;
            let r = last_n(all, MAX_IPC_EVENT_BACKLOG as nat);
            &&& r.len() == (if all.len() <= MAX_IPC_EVENT_BACKLOG {
                all.len()
            } else {
                MAX_IPC_EVENT_BACKLOG as nat
            })
            &&& forall|i: int| 0 <= i < r.len() ==> #[trigger] r[i] == all[all.len() - r.len() + i]
            &&& dispatched.len() >= MAX_IPC_EVENT_BACKLOG ==> r == dispatched.subrange(
                dispatched.len() - MAX_IPC_EVENT_BACKLOG,
                dispatched.len() as int,
            )
        }),
{
    let all = backlog + dispatched;
    let r = last_n(all, MAX_IPC_EVENT_BACKLOG as nat);
    if dispatched.len() >= MAX_IPC_EVENT_BACKLOG {
        assert(r =~= dispatched.subrange(dispatched.len() - MAX_IPC_EVENT_BACKLOG, dispatched.len() as int));
    }
}

} // verus!
