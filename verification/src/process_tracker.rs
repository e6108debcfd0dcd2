//! Tracks the processes that the system executes, from `exec()` until they
//! have exited and been pruned.

use vstd::prelude::*;
use std::collections::VecDeque;
use crate::events::{EventType, InternalEvent, ProcEvent, ProcEventType, queue_internal_event};

verus! {

/// What the daemon knows of a tracked process.
#[derive(Debug, Clone)]
pub struct TrackedProcess {
    pub pid: i32,
    pub comm: String,
    pub exe_name: String,
    pub cmdline: String,
    pub is_dead: bool,
}

/// A copy of a tracked process.
pub fn clone_process(p: &TrackedProcess) -> (r: TrackedProcess)
    ensures
        r == *p,
{
    TrackedProcess {
        pid: p.pid,
        comm: p.comm.clone(),
        exe_name: p.exe_name.clone(),
        cmdline: p.cmdline.clone(),
        is_dead: p.is_dead,
    }
}

/// No pid occurs twice in `s`.
pub open spec fn pids_distinct(s: Seq<(i32, TrackedProcess)>) -> bool {
    forall|i: int, j: int| 0 <= i < j < s.len() ==> #[trigger] s[i].0 != #[trigger] s[j].0
}

/// The map from pids to processes that `s` stands for.
pub open spec fn process_view(s: Seq<(i32, TrackedProcess)>) -> Map<i32, TrackedProcess>
    decreases s.len(),
{
    if s.len() == 0 {
        Map::empty()
    } else {
        process_view(s.drop_last()).insert(s.last().0, s.last().1)
    }
}

/// A pid is in the view exactly when it occurs in the list; with distinct
/// pids each entry gives the process of its pid.
pub proof fn lemma_process_view(s: Seq<(i32, TrackedProcess)>)
    ensures
        forall|k: i32| #[trigger] process_view(s).dom().contains(k) <==> exists|i: int| 0 <= i < s.len() && s[i].0 == k,
        pids_distinct(s) ==> forall|i: int| 0 <= i < s.len() ==> #[trigger] process_view(s)[s[i].0] == s[i].1,
    decreases s.len(),
{
    if s.len() > 0 {
        let p = s.drop_last();
        lemma_process_view(p);
        assert forall|k: i32| #[trigger] process_view(s).dom().contains(k) <==> exists|i: int| 0 <= i < s.len() && s[i].0 == k by {
            if process_view(s).dom().contains(k) {
                if k == s.last().0 {
                    assert(s[s.len() - 1].0 == k);
                } else {
                    assert(process_view(p).dom().contains(k));
                    let i = choose|i: int| 0 <= i < p.len() && p[i].0 == k;
                    assert(s[i].0 == k);
                }
            }
            if exists|i: int| 0 <= i < s.len() && s[i].0 == k {
                let i = choose|i: int| 0 <= i < s.len() && s[i].0 == k;
                if i < s.len() - 1 {
                    assert(p[i].0 == k);
                }
            }
        }
        if pids_distinct(s) {
            assert(pids_distinct(p)) by {
                assert forall|i: int, j: int| 0 <= i < j < p.len() implies #[trigger] p[i].0 != #[trigger] p[j].0 by {
                    assert(s[i].0 != s[j].0);
                }
            }
            assert forall|i: int| 0 <= i < s.len() implies #[trigger] process_view(s)[s[i].0] == s[i].1 by {
                if i < s.len() - 1 {
                    assert(s[i].0 != s[s.len() - 1].0);
                    assert(p[i] == s[i]);
                }
            }
        }
    }
}

/// The tracked processes after the process `pid`, if tracked, was marked
/// as dead.
pub open spec fn spec_mark_dead(m: Map<i32, TrackedProcess>, pid: i32) -> Map<i32, TrackedProcess> {
    if m.dom().contains(pid) {
        m.insert(pid, TrackedProcess { is_dead: true, ..m[pid] })
    } else {
        m
    }
}

/// The tracked processes without those marked as dead.
pub open spec fn spec_prune(m: Map<i32, TrackedProcess>) -> Map<i32, TrackedProcess> {
    m.restrict(m.dom().filter(|p: i32| !m[p].is_dead))
}

/// The processes that the daemon currently tracks, keyed by pid.
#[derive(Debug, Clone)]
pub struct ProcessTracker {
    pub tracked_processes: Vec<(i32, TrackedProcess)>,
}

impl ProcessTracker {
    /// The tracked processes, as a map from pid to process.
    pub open spec fn view_map(&self) -> Map<i32, TrackedProcess> {
        process_view(self.tracked_processes@)
    }

    /// No pid is held twice.
    pub open spec fn wf(&self) -> bool {
        pids_distinct(self.tracked_processes@)
    }

    /// No process tracked yet.
    pub fn new() -> (t: ProcessTracker)
        ensures
            t.wf(),
            t.view_map() == Map::<i32, TrackedProcess>::empty(),
    {
        ProcessTracker { tracked_processes: Vec::new() }
    }

    fn position(&self, pid: i32) -> (r: Option<usize>)
        ensures
            match r {
                Some(i) => i < self.tracked_processes@.len() && self.tracked_processes@[i as int].0 == pid,
                None => forall|i: int| 0 <= i < self.tracked_processes@.len() ==> self.tracked_processes@[i].0 != pid,
            },
    {
        let mut i: usize = 0;
        while i < self.tracked_processes.len()
            invariant
                i <= self.tracked_processes@.len(),
                forall|j: int| 0 <= j < i ==> self.tracked_processes@[j].0 != pid,
            decreases self.tracked_processes@.len() - i,
        {
            if self.tracked_processes[i].0 == pid {
                return Some(i);
            }
            i = i + 1;
        }
        None
    }

    /// The tracked process with `pid`, if any.
    pub fn get_process(&self, pid: i32) -> (r: Option<&TrackedProcess>)
        requires
            self.wf(),
        ensures
            match r {
                Some(p) => self.view_map().dom().contains(pid) && self.view_map()[pid] == *p,
                None => !self.view_map().dom().contains(pid),
            },
    {
        proof {
            lemma_process_view(self.tracked_processes@);
        }
        match self.position(pid) {
            Some(i) => Some(&self.tracked_processes[i].1),
            None => None,
        }
    }

    /// All tracked processes, keyed by pid.
    pub fn get_tracked_processes(&self) -> (r: &Vec<(i32, TrackedProcess)>)
        ensures
            process_view(r@) == self.view_map(),
            r@ == self.tracked_processes@,
    {
        &self.tracked_processes
    }

    /// Track `process` under `pid`, replacing what was tracked under it.
    pub fn track(&mut self, pid: i32, process: TrackedProcess)
        requires
            old(self).wf(),
        ensures
            final(self).wf(),
            final(self).view_map() == old(self).view_map().insert(pid, process),
    {
        proof {
            lemma_process_view(self.tracked_processes@);
        }
        let pos = self.position(pid);
        let ghost old_s = self.tracked_processes@;
        match pos {
            Some(i) => {
                self.tracked_processes.set(i, (pid, process));
            }
            None => {
                self.tracked_processes.push((pid, process));
            }
        }
        proof {
            let s = self.tracked_processes@;
            assert(pids_distinct(s)) by {
                assert forall|a: int, b: int| 0 <= a < b < s.len() implies #[trigger] s[a].0 != #[trigger] s[b].0 by {
                    if pos is Some {
                        let i = pos->0 as int;
                        if a != i && b != i {
                            assert(old_s[a].0 != old_s[b].0);
                        } else if a == i {
                            assert(old_s[i].0 != old_s[b].0);
                        } else {
                            assert(old_s[a].0 != old_s[i].0);
                        }
                    } else if b < old_s.len() {
                        assert(old_s[a].0 != old_s[b].0);
                    } else {
                        assert(old_s[a].0 != pid);
                    }
                }
            }
            lemma_process_view(s);
            let m = process_view(old_s).insert(pid, process);
            assert forall|k: i32| #[trigger] process_view(s).dom().contains(k) <==> m.dom().contains(k) by {
                if process_view(s).dom().contains(k) {
                    let j = choose|j: int| 0 <= j < s.len() && s[j].0 == k;
                    if k != pid {
                        assert(old_s[j].0 == k);
                    }
                }
                if m.dom().contains(k) && k != pid {
                    let j = choose|j: int| 0 <= j < old_s.len() && old_s[j].0 == k;
                    assert(s[j].0 == k);
                }
                if k == pid {
                    if pos is Some {
                        assert(s[pos->0 as int].0 == k);
                    } else {
                        assert(s[s.len() - 1].0 == k);
                    }
                }
            }
            assert forall|k: i32| #[trigger] m.dom().contains(k) implies process_view(s)[k] == m[k] by {
                assert(process_view(s).dom().contains(k));
                let j = choose|j: int| 0 <= j < s.len() && s[j].0 == k;
                if k != pid {
                    assert(old_s[j] == s[j]);
                }
            }
            assert(process_view(s) =~= m);
        }
    }

    /// Mark the process `pid` as dead, if it is tracked. Returns whether it
    /// was.
    pub fn mark_dead(&mut self, pid: i32) -> (changed: bool)
        requires
            old(self).wf(),
        ensures
            final(self).wf(),
            changed == old(self).view_map().dom().contains(pid),
            final(self).view_map() == spec_mark_dead(old(self).view_map(), pid),
    {
        proof {
            lemma_process_view(self.tracked_processes@);
        }
        match self.position(pid) {
            Some(i) => {
                let p = clone_process(&self.tracked_processes[i].1);
                let dead = TrackedProcess { is_dead: true, ..p };
                proof {
                    assert(self.tracked_processes@[i as int].0 == pid);
                }
                self.track(pid, dead);
                true
            }
            None => {
                false
            }
        }
    }

    /// Stop tracking the processes that were marked as dead.
    pub fn prune_zombies(&mut self)
        requires
            old(self).wf(),
        ensures
            final(self).wf(),
            final(self).view_map() == spec_prune(old(self).view_map()),
    {
        let ghost old_s = self.tracked_processes@;
        proof {
            lemma_process_view(old_s);
        }
        let mut kept: Vec<(i32, TrackedProcess)> = Vec::new();
        let ghost mut src: Seq<int> = Seq::empty();
        let mut i: usize = 0;
        while i < self.tracked_processes.len()
            invariant
                old_s == self.tracked_processes@,
                pids_distinct(old_s),
                i <= old_s.len(),
                src.len() == kept@.len(),
                forall|a: int| 0 <= a < kept@.len() ==> 0 <= #[trigger] src[a] < i && old_s[src[a]] == kept@[a] && !old_s[src[a]].1.is_dead,
                forall|a: int, c: int| 0 <= a < c < kept@.len() ==> #[trigger] src[a] < #[trigger] src[c],
                forall|b: int| 0 <= b < i && !old_s[b].1.is_dead ==> #[trigger] kept@.contains(old_s[b]),
            decreases old_s.len() - i,
        {
            let e = &self.tracked_processes[i];
            if !e.1.is_dead {
                let ghost before = kept@;
                kept.push((e.0, clone_process(&e.1)));
                proof {
                    src = src.push(i as int);
                    assert(kept@.last() == old_s[i as int]);
                    assert forall|b: int| 0 <= b < i + 1 && !old_s[b].1.is_dead implies #[trigger] kept@.contains(old_s[b]) by {
                        if b == i {
                            assert(kept@[kept@.len() - 1] == old_s[b]);
                        } else {
                            assert(before.contains(old_s[b]));
                            let c = choose|c: int| 0 <= c < before.len() && before[c] == old_s[b];
                            assert(kept@[c] == old_s[b]);
                        }
                    }
                }
            }
            i = i + 1;
        }
        proof {
            assert(pids_distinct(kept@)) by {
                assert forall|a: int, c: int| 0 <= a < c < kept@.len() implies #[trigger] kept@[a].0 != #[trigger] kept@[c].0 by {
                    assert(src[a] < src[c]);
                    assert(old_s[src[a]].0 != old_s[src[c]].0);
                }
            }
        }
        self.tracked_processes = kept;
        proof {
            let s = self.tracked_processes@;
            let om = process_view(old_s);
            lemma_process_view(s);
            let m = spec_prune(om);
            assert forall|k: i32| #[trigger] process_view(s).dom().contains(k) <==> m.dom().contains(k) by {
                if process_view(s).dom().contains(k) {
                    let j = choose|j: int| 0 <= j < s.len() && s[j].0 == k;
                    let b = src[j];
                    assert(old_s[b] == s[j]);
                    assert(om[old_s[b].0] == old_s[b].1);
                    assert(om.dom().filter(|p: i32| !om[p].is_dead).contains(k));
                }
                if m.dom().contains(k) {
                    assert(om.dom().filter(|p: i32| !om[p].is_dead).contains(k));
                    let b = choose|b: int| 0 <= b < old_s.len() && old_s[b].0 == k;
                    assert(om[old_s[b].0] == old_s[b].1);
                    assert(s.contains(old_s[b]));
                    let j = choose|j: int| 0 <= j < s.len() && s[j] == old_s[b];
                    assert(s[j].0 == k);
                }
            }
            assert forall|k: i32| #[trigger] m.dom().contains(k) implies process_view(s)[k] == m[k] by {
                assert(process_view(s).dom().contains(k));
                let j = choose|j: int| 0 <= j < s.len() && s[j].0 == k;
                let b = src[j];
                assert(old_s[b] == s[j]);
                assert(om[old_s[b].0] == old_s[b].1);
            }
            assert(process_view(s) =~= m);
        }
    }

    /// React to a process event: start tracking on `exec()` (when the
    /// process could be inspected, as `process`), mark as dead on exit, and
    /// queue a `TrackedProcessChanged` event whenever the tracking changed.
    pub fn process_event(&mut self, event: ProcEvent, process: Option<TrackedProcess>, queue: &mut VecDeque<InternalEvent>)
        requires
            old(self).wf(),
        ensures
            final(self).wf(),
            final(self).view_map() == match event.event_type {
                ProcEventType::Exec => match process {
                    Some(p) => old(self).view_map().insert(event.pid, p),
                    None => old(self).view_map(),
                },
                ProcEventType::Exit => spec_mark_dead(old(self).view_map(), event.pid),
                _ => old(self).view_map(),
            },
            ({
                let changed = match event.event_type {
                    ProcEventType::Exec => process is Some,
                    ProcEventType::Exit => old(self).view_map().dom().contains(event.pid),
                    _ => false,
                };
                if changed {
                    &&& final(queue)@.len() == old(queue)@.len() + 1
                    &&& final(queue)@.subrange(0, old(queue)@.len() as int) == old(queue)@
                    &&& final(queue)@.last().event_type == EventType::TrackedProcessChanged(event)
                } else {
                    final(queue)@ == old(queue)@
                }
            }),
    {
        match event.event_type {
            ProcEventType::Exec => {
                match process {
                    Some(p) => {
                        self.track(event.pid, p);
                        queue_internal_event(EventType::TrackedProcessChanged(event), queue);
                    }
                    None => {}
                }
            }
            ProcEventType::Exit => {
                if self.mark_dead(event.pid) {
                    queue_internal_event(EventType::TrackedProcessChanged(event), queue);
                }
            }
            _ => {}
        }
    }

    /// React to an internal event: every `Ping` prunes the dead processes.
    pub fn internal_event(&mut self, event: &EventType)
        requires
            old(self).wf(),
        ensures
            final(self).wf(),
            final(self).view_map() == match *event {
                EventType::Ping => spec_prune(old(self).view_map()),
                _ => old(self).view_map(),
            },
    {
        match event {
            EventType::Ping => self.prune_zombies(),
            _ => {}
        }
    }
}

/// A process that exited is no longer tracked once the dead processes have
/// been pruned, and pruning keeps every process that is still alive.
pub proof fn law_exit_then_prune(m: Map<i32, TrackedProcess>, pid: i32)
    ensures
        !spec_prune(spec_mark_dead(m, pid)).dom().contains(pid),
        forall|q: i32| q != pid && #[trigger] m.dom().contains(q) && !m[q].is_dead ==> spec_prune(spec_mark_dead(m, pid)).dom().contains(q)
            && spec_prune(spec_mark_dead(m, pid))[q] == m[q],
{
    let d = spec_mark_dead(m, pid);
    assert forall|q: i32| q != pid && #[trigger] m.dom().contains(q) && !m[q].is_dead implies spec_prune(d).dom().contains(q)
        && spec_prune(d)[q] == m[q] by {
        assert(d[q] == m[q]);
        assert(d.dom().filter(|p: i32| !d[p].is_dead).contains(q));
    }
}

/// Tracking a process and then looking it up gives that process.
pub proof fn law_track_then_get(m: Map<i32, TrackedProcess>, pid: i32, p: TrackedProcess)
    ensures
        m.insert(pid, p).dom().contains(pid),
        m.insert(pid, p)[pid] == p,
{
}

} // verus!
