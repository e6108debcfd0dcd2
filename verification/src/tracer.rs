//! Decisions of the I/O tracer: which processes get a new I/O trace log,
//! and how file accesses reported by the kernel end up in those logs.

use vstd::prelude::*;
use crate::events::{instant_now, ProcEvent, ProcEventType};
use crate::iotrace::{IOOperation, IOTraceLog, IOTraceLogFlag, op_file};

verus! {

/// What the I/O trace log manager knows of a program's existing trace log.
#[derive(Debug, Clone)]
pub struct ExistingTrace {
    /// The log was blacklisted dynamically.
    pub blacklisted: bool,
    /// The status flags of the log.
    pub flags: Vec<IOTraceLogFlag>,
    /// Checking the log found an error.
    pub err: bool,
}

/// `flags` holds `flag`.
pub open spec fn has_flag(flags: Seq<IOTraceLogFlag>, flag: IOTraceLogFlag) -> bool {
    exists|i: int| 0 <= i < flags.len() && flags[i] == flag
}

/// Whether `flags` holds `flag`.
pub fn contains_flag(flags: &Vec<IOTraceLogFlag>, flag: IOTraceLogFlag) -> (r: bool)
    ensures
        r == has_flag(flags@, flag),
{
    let mut i: usize = 0;
    while i < flags.len()
        invariant
            i <= flags@.len(),
            forall|j: int| 0 <= j < i ==> flags@[j] != flag,
        decreases flags@.len() - i,
    {
        if flags[i] == flag {
            assert(flags@[i as int] == flag);
            return true;
        }
        i = i + 1;
    }
    false
}

/// Whether a program must be traced anew, e.g. because its binary is newer
/// than its trace, or its trace is older than n days. Without the trace log
/// manager nothing is traced; when the process is gone (its executable or
/// command line could not be read) the answer is an error; a program
/// without a trace log is traced; a dynamically blacklisted log is never
/// overwritten; otherwise a log with an error, or flagged as expired or
/// outdated, is replaced.
pub fn shall_new_tracelog_be_created(log_manager_loaded: bool, process_alive: bool, existing: &Option<ExistingTrace>) -> (r: Result<bool, ()>)
    ensures
        r == (if !log_manager_loaded {
            Ok(false)
        } else if !process_alive {
            Err(())
        } else {
            match *existing {
                None => Ok(true),
                Some(t) => if t.blacklisted {
                    Ok(false)
                } else {
                    Ok(t.err || has_flag(t.flags@, IOTraceLogFlag::Expired) || has_flag(t.flags@, IOTraceLogFlag::Outdated))
                },
            }
        }),
{
    if !log_manager_loaded {
        return Ok(false);
    }
    if !process_alive {
        return Err(());
    }
    match existing {
        None => Ok(true),
        Some(t) => {
            if t.blacklisted {
                Ok(false)
            } else if t.err || contains_flag(&t.flags, IOTraceLogFlag::Expired) || contains_flag(&t.flags, IOTraceLogFlag::Outdated) {
                Ok(true)
            } else {
                Ok(false)
            }
        }
    }
}

/// What becomes of a request to trace a process that was just executed.
#[derive(Debug, Clone, Copy, PartialEq, Eq, Structural)]
pub enum TraceStart {
    /// The program is blacklisted: no I/O trace log is generated.
    ProgramBlacklisted,
    /// The process is being traced already.
    AlreadyTracing,
    /// A valid I/O trace log exists; nothing to trace.
    HaveValidTrace,
    /// The process vanished before tracing could start.
    ProcessGone,
    /// Start tracing the process.
    StartTracing,
}

/// Decide on a request to trace a process.
pub fn trace_start_decision(program_blacklisted: bool, already_tracing: bool, shall_create: Result<bool, ()>) -> (r: TraceStart)
    ensures
        r == (if program_blacklisted {
            TraceStart::ProgramBlacklisted
        } else if already_tracing {
            TraceStart::AlreadyTracing
        } else {
            match shall_create {
                Ok(true) => TraceStart::StartTracing,
                Ok(false) => TraceStart::HaveValidTrace,
                Err(_) => TraceStart::ProcessGone,
            }
        }),
{
    if program_blacklisted {
        return TraceStart::ProgramBlacklisted;
    }
    if already_tracing {
        return TraceStart::AlreadyTracing;
    }
    match shall_create {
        Ok(true) => TraceStart::StartTracing,
        Ok(false) => TraceStart::HaveValidTrace,
        Err(_) => TraceStart::ProcessGone,
    }
}

/// What the tracer keeps of one traced process.
#[derive(Debug)]
pub struct PerTracerData {
    /// When tracing began.
    pub start_time: std::time::Instant,
    /// The process has exited.
    pub process_exited: bool,
    /// The tracing period has elapsed.
    pub trace_time_expired: bool,
    /// The I/O trace log being recorded.
    pub trace_log: IOTraceLog,
}

impl PerTracerData {
    /// Start tracing with `trace_log`, now.
    pub fn new(trace_log: IOTraceLog) -> (d: PerTracerData)
        ensures
            d.trace_log == trace_log,
            !d.process_exited,
            !d.trace_time_expired,
    {
        PerTracerData { start_time: instant_now(), process_exited: false, trace_time_expired: false, trace_log }
    }
}

/// No pid occurs twice in `s`.
pub open spec fn tracer_pids_distinct(s: Seq<(i32, PerTracerData)>) -> bool {
    forall|i: int, j: int| 0 <= i < j < s.len() ==> #[trigger] s[i].0 != #[trigger] s[j].0
}

/// `pid` is traced in `s`.
pub open spec fn traced(s: Seq<(i32, PerTracerData)>, pid: i32) -> bool {
    exists|i: int| 0 <= i < s.len() && s[i].0 == pid
}

/// The in-flight traces, keyed by pid.
#[derive(Debug)]
pub struct ActiveTracers {
    pub tracers: Vec<(i32, PerTracerData)>,
}

impl ActiveTracers {
    /// No pid is traced twice.
    pub open spec fn wf(&self) -> bool {
        tracer_pids_distinct(self.tracers@)
    }

    /// The pids that are traced.
    pub open spec fn pids(&self) -> Set<i32> {
        Set::new(|p: i32| traced(self.tracers@, p))
    }

    /// No trace in flight.
    pub fn new() -> (t: ActiveTracers)
        ensures
            t.wf(),
            t.pids() == Set::<i32>::empty(),
    {
        let t = ActiveTracers { tracers: Vec::new() };
        assert(t.pids() =~= Set::<i32>::empty());
        t
    }

    /// Position of `pid`, if it is traced.
    pub fn position(&self, pid: i32) -> (r: Option<usize>)
        ensures
            match r {
                Some(i) => i < self.tracers@.len() && self.tracers@[i as int].0 == pid,
                None => !traced(self.tracers@, pid),
            },
    {
        let mut i: usize = 0;
        while i < self.tracers.len()
            invariant
                i <= self.tracers@.len(),
                forall|j: int| 0 <= j < i ==> self.tracers@[j].0 != pid,
            decreases self.tracers@.len() - i,
        {
            if self.tracers[i].0 == pid {
                return Some(i);
            }
            i = i + 1;
        }
        None
    }

    /// Whether `pid` is being traced.
    pub fn contains(&self, pid: i32) -> (r: bool)
        ensures
            r == self.pids().contains(pid),
    {
        self.position(pid).is_some()
    }

    /// Begin tracing `pid`, unless it is traced already. Returns whether it
    /// was added.
    pub fn start(&mut self, pid: i32, data: PerTracerData) -> (added: bool)
        requires
            old(self).wf(),
        ensures
            final(self).wf(),
            added == !old(self).pids().contains(pid),
            final(self).pids() == old(self).pids().insert(pid),
            added ==> final(self).tracers@ == old(self).tracers@.push((pid, data)),
            !added ==> final(self).tracers@ == old(self).tracers@,
    {
        if self.contains(pid) {
            assert(self.pids().insert(pid) =~= self.pids());
            return false;
        }
        let ghost old_s = self.tracers@;
        self.tracers.push((pid, data));
        proof {
            let s = self.tracers@;
            assert forall|a: int, b: int| 0 <= a < b < s.len() implies #[trigger] s[a].0 != #[trigger] s[b].0 by {
                if b < old_s.len() {
                    assert(old_s[a].0 != old_s[b].0);
                } else {
                    assert(old_s[a].0 != pid);
                }
            }
            assert forall|p: i32| #[trigger] traced(s, p) <==> traced(old_s, p) || p == pid by {
                if traced(s, p) && p != pid {
                    let i = choose|i: int| 0 <= i < s.len() && s[i].0 == p;
                    assert(old_s[i].0 == p);
                }
                if traced(old_s, p) {
                    let i = choose|i: int| 0 <= i < old_s.len() && old_s[i].0 == p;
                    assert(s[i].0 == p);
                }
                if p == pid {
                    assert(s[s.len() - 1].0 == p);
                }
            }
            assert(self.pids() =~= old(self).pids().insert(pid));
        }
        true
    }

    /// Note that the traced process `pid` exited. Returns whether it was
    /// traced.
    pub fn notify_exit(&mut self, pid: i32) -> (was_traced: bool)
        requires
            old(self).wf(),
        ensures
            final(self).wf(),
            was_traced == old(self).pids().contains(pid),
            final(self).tracers@.len() == old(self).tracers@.len(),
            forall|i: int| 0 <= i < final(self).tracers@.len() && old(self).tracers@[i].0 != pid
                ==> #[trigger] final(self).tracers@[i] == old(self).tracers@[i],
            forall|i: int| 0 <= i < final(self).tracers@.len() && old(self).tracers@[i].0 == pid ==> {
                let n = #[trigger] final(self).tracers@[i];
                let o = old(self).tracers@[i];
                &&& n.0 == pid
                &&& n.1.start_time == o.1.start_time
                &&& n.1.trace_log == o.1.trace_log
                &&& n.1.trace_time_expired == o.1.trace_time_expired
                &&& n.1.process_exited
            },
    {
        match self.position(pid) {
            None => false,
            Some(i) => {
                let ghost old_s = self.tracers@;
                let (p, mut d) = self.tracers.remove(i);
                d.process_exited = true;
                self.tracers.insert(i, (p, d));
                proof {
                    let s = self.tracers@;
                    assert forall|a: int| 0 <= a < s.len() && old_s[a].0 != pid implies #[trigger] s[a] == old_s[a] by {
                        assert(a != i);
                    }
                    assert forall|a: int| 0 <= a < s.len() && old_s[a].0 == pid implies {
                        let n = #[trigger] s[a];
                        let o = old_s[a];
                        &&& n.0 == pid
                        &&& n.1.start_time == o.1.start_time
                        &&& n.1.trace_log == o.1.trace_log
                        &&& n.1.trace_time_expired == o.1.trace_time_expired
                        &&& n.1.process_exited
                    } by {
                        if a != i {
                            assert(old_s[a].0 != old_s[i as int].0);
                        }
                    }
                    assert forall|a: int, b: int| 0 <= a < b < s.len() implies #[trigger] s[a].0 != #[trigger] s[b].0 by {
                        assert(old_s[a].0 != old_s[b].0);
                    }
                }
                true
            }
        }
    }

    /// Record that the traced process `pid` opened `file`, `size` bytes
    /// large, unless the file is blacklisted. Returns whether `pid` is
    /// traced; a file access of an untraced process asks for a late start of
    /// its trace.
    pub fn record_open(&mut self, pid: i32, file: String, size: u64, file_blacklisted: bool) -> (was_traced: bool)
        requires
            old(self).wf(),
            forall|i: int| 0 <= i < old(self).tracers@.len() ==> (#[trigger] old(self).tracers@[i]).1.trace_log.file_map.wf()
                && old(self).tracers@[i].1.trace_log.accumulated_size + size <= u64::MAX
                && (old(self).tracers@[i].1.trace_log.file_map.view_map().dom().contains(file@)
                    ==> old(self).tracers@[i].1.trace_log.file_map.view_map()[file@] < usize::MAX),
        ensures
            final(self).wf(),
            was_traced == old(self).pids().contains(pid),
            final(self).tracers@.len() == old(self).tracers@.len(),
            forall|i: int| 0 <= i < final(self).tracers@.len() && (old(self).tracers@[i].0 != pid || file_blacklisted)
                ==> #[trigger] final(self).tracers@[i] == old(self).tracers@[i],
            forall|i: int| 0 <= i < final(self).tracers@.len() && old(self).tracers@[i].0 == pid && !file_blacklisted ==> {
                let o = old(self).tracers@[i].1.trace_log;
                let n = (#[trigger] final(self).tracers@[i]).1.trace_log;
                &&& final(self).tracers@[i].0 == pid
                &&& n.trace_log@ == o.trace_log@.push(n.trace_log@.last())
                &&& op_file(n.trace_log@.last().operation) == file@
                &&& n.trace_log@.last().size == size
                &&& n.accumulated_size == o.accumulated_size + size
                &&& (o.consistent() ==> n.consistent())
            },
    {
        match self.position(pid) {
            None => false,
            Some(i) => {
                if file_blacklisted {
                    return true;
                }
                let ghost old_s = self.tracers@;
                let (p, mut d) = self.tracers.remove(i);
                proof {
                    assert(old_s[i as int] == (p, d));
                }
                d.trace_log.add_event(IOOperation::Open(file), size);
                self.tracers.insert(i, (p, d));
                proof {
                    let s = self.tracers@;
                    assert forall|a: int| 0 <= a < s.len() && (old_s[a].0 != pid || file_blacklisted) implies #[trigger] s[a] == old_s[a] by {
                        assert(a != i);
                    }
                    assert forall|a: int, b: int| 0 <= a < b < s.len() implies #[trigger] s[a].0 != #[trigger] s[b].0 by {
                        assert(old_s[a].0 != old_s[b].0);
                    }
                    assert forall|a: int| 0 <= a < s.len() && old_s[a].0 == pid && !file_blacklisted implies {
                        let o = old_s[a].1.trace_log;
                        let n = (#[trigger] s[a]).1.trace_log;
                        &&& s[a].0 == pid
                        &&& n.trace_log@ == o.trace_log@.push(n.trace_log@.last())
                        &&& op_file(n.trace_log@.last().operation) == file@
                        &&& n.trace_log@.last().size == size
                        &&& n.accumulated_size == o.accumulated_size + size
                        &&& (o.consistent() ==> n.consistent())
                    } by {
                        if a != i {
                            assert(old_s[a].0 != old_s[i as int].0);
                        }
                    }
                }
                true
            }
        }
    }

    /// Handle one file access reported by fanotify: `pid` opened `file`,
    /// `size` bytes large. A traced process gets the access recorded (see
    /// `record_open`). For an untraced process, whose start the tracer
    /// missed, tracing starts late when `shall_create` (the answer of
    /// `shall_new_tracelog_be_created`) is `Ok` and a fresh trace log
    /// `new_log` could be made for it; the access itself is not recorded
    /// then. Returns whether tracing started.
    pub fn on_file_opened(
        &mut self,
        pid: i32,
        file: String,
        size: u64,
        file_blacklisted: bool,
        shall_create: Result<bool, ()>,
        new_log: Option<IOTraceLog>,
    ) -> (started: bool)
        requires
            old(self).wf(),
            forall|i: int| 0 <= i < old(self).tracers@.len() ==> (#[trigger] old(self).tracers@[i]).1.trace_log.file_map.wf()
                && old(self).tracers@[i].1.trace_log.accumulated_size + size <= u64::MAX
                && (old(self).tracers@[i].1.trace_log.file_map.view_map().dom().contains(file@)
                    ==> old(self).tracers@[i].1.trace_log.file_map.view_map()[file@] < usize::MAX),
        ensures
            final(self).wf(),
            started == (!old(self).pids().contains(pid) && shall_create is Ok && new_log is Some),
            final(self).pids() == (if started { old(self).pids().insert(pid) } else { old(self).pids() }),
            !old(self).pids().contains(pid) && !started ==> final(self).tracers@ == old(self).tracers@,
            started ==> {
                &&& final(self).tracers@.len() == old(self).tracers@.len() + 1
                &&& final(self).tracers@.subrange(0, old(self).tracers@.len() as int) == old(self).tracers@
                &&& final(self).tracers@.last().0 == pid
                &&& final(self).tracers@.last().1.trace_log == new_log->0
                &&& !final(self).tracers@.last().1.process_exited
                &&& !final(self).tracers@.last().1.trace_time_expired
            },
            old(self).pids().contains(pid) ==> final(self).tracers@.len() == old(self).tracers@.len(),
            old(self).pids().contains(pid) ==> forall|i: int| 0 <= i < final(self).tracers@.len() && (old(self).tracers@[i].0 != pid || file_blacklisted)
                ==> #[trigger] final(self).tracers@[i] == old(self).tracers@[i],
            old(self).pids().contains(pid) ==> forall|i: int| 0 <= i < final(self).tracers@.len() && old(self).tracers@[i].0 == pid && !file_blacklisted ==> {
                let o = old(self).tracers@[i].1.trace_log;
                let n = (#[trigger] final(self).tracers@[i]).1.trace_log;
                &&& final(self).tracers@[i].0 == pid
                &&& n.trace_log@ == o.trace_log@.push(n.trace_log@.last())
                &&& op_file(n.trace_log@.last().operation) == file@
                &&& n.trace_log@.last().size == size
                &&& n.accumulated_size == o.accumulated_size + size
                &&& (o.consistent() ==> n.consistent())
            },
    {
        if self.contains(pid) {
            let _ = self.record_open(pid, file, size, file_blacklisted);
            proof {
                assert forall|k: int| 0 <= k < self.tracers@.len() implies #[trigger] self.tracers@[k].0 == old(self).tracers@[k].0 by {
                    if old(self).tracers@[k].0 != pid || file_blacklisted {
                        assert(self.tracers@[k] == old(self).tracers@[k]);
                    } else {
                        let n = self.tracers@[k];
                        assert(n.0 == pid);
                    }
                }
                assert forall|p: i32| #[trigger] traced(self.tracers@, p) <==> traced(old(self).tracers@, p) by {
                    if traced(self.tracers@, p) {
                        let k = choose|k: int| 0 <= k < self.tracers@.len() && self.tracers@[k].0 == p;
                        assert(old(self).tracers@[k].0 == p);
                    }
                    if traced(old(self).tracers@, p) {
                        let k = choose|k: int| 0 <= k < old(self).tracers@.len() && old(self).tracers@[k].0 == p;
                        assert(self.tracers@[k].0 == p);
                    }
                }
                assert(self.pids() =~= old(self).pids());
            }
            return false;
        }
        match shall_create {
            Err(_) => false,
            Ok(_) => match new_log {
                None => false,
                Some(log) => {
                    let data = PerTracerData::new(log);
                    let _ = self.start(pid, data);
                    proof {
                        assert(self.tracers@.subrange(0, old(self).tracers@.len() as int) =~= old(self).tracers@);
                    }
                    true
                },
            },
        }
    }
}

/// What the tracer does with a process event: start tracing on `exec()`,
/// note the exit on `exit()`, ignore the rest.
#[derive(Debug, Clone, Copy, PartialEq, Eq, Structural)]
pub enum TracerReaction {
    TraceProcess,
    NotifyExit,
    Ignore,
}

/// The tracer's reaction to a process event.
pub fn tracer_reaction(event: &ProcEvent) -> (r: TracerReaction)
    ensures
        r == match event.event_type {
            ProcEventType::Exec => TracerReaction::TraceProcess,
            ProcEventType::Exit => TracerReaction::NotifyExit,
            _ => TracerReaction::Ignore,
        },
{
    match event.event_type {
        ProcEventType::Exec => TracerReaction::TraceProcess,
        ProcEventType::Exit => TracerReaction::NotifyExit,
        _ => TracerReaction::Ignore,
    }
}

} // verus!
