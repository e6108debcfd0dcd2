//! The I/O trace prefetcher: replays recorded I/O traces by caching the
//! files they opened, spreading the work over a pool of worker threads.

use vstd::prelude::*;
use crate::constants::NUM_PREFETCHER_THREADS;
use crate::events::EventType;
use crate::iotrace::{IOOperation, TraceLogEntry};

verus! {

/// The states a prefetcher thread can be in
#[derive(Debug, Clone)]
pub enum ThreadState {
    Uninitialized,
    Idle,
    Error(String),
    PrefetchedFile(String),
    PrefetchedFileMetadata(String),
    UnmappedFile(String),
}

/// The prefetcher: the programs whose traces it replayed, and the state of
/// each of its worker threads.
#[derive(Debug, Clone)]
pub struct IOtracePrefetcher {
    pub prefetched_programs: Vec<String>,
    pub thread_states: Vec<ThreadState>,
}

impl IOtracePrefetcher {
    /// A prefetcher with no program replayed and all its worker threads
    /// uninitialized.
    pub fn new() -> (p: IOtracePrefetcher)
        ensures
            p.prefetched_programs@.len() == 0,
            p.thread_states@.len() == NUM_PREFETCHER_THREADS,
            forall|i: int| 0 <= i < p.thread_states@.len() ==> #[trigger] p.thread_states@[i] == ThreadState::Uninitialized,
    {
        let mut thread_states: Vec<ThreadState> = Vec::new();
        let mut n: usize = 0;
        while n < NUM_PREFETCHER_THREADS
            invariant
                n <= NUM_PREFETCHER_THREADS,
                thread_states@.len() == n,
                forall|i: int| 0 <= i < n ==> #[trigger] thread_states@[i] == ThreadState::Uninitialized,
            decreases NUM_PREFETCHER_THREADS - n,
        {
            thread_states.push(ThreadState::Uninitialized);
            n = n + 1;
        }
        IOtracePrefetcher { prefetched_programs: Vec::new(), thread_states }
    }

    /// React to an internal event: when the system enters an idle period,
    /// every worker thread is marked idle.
    pub fn internal_event(&mut self, event: &EventType)
        ensures
            final(self).prefetched_programs == old(self).prefetched_programs,
            final(self).thread_states@.len() == old(self).thread_states@.len(),
            forall|i: int| 0 <= i < final(self).thread_states@.len() ==> #[trigger] final(self).thread_states@[i] == match *event {
                EventType::EnterIdle => ThreadState::Idle,
                _ => old(self).thread_states@[i],
            },
    {
        match event {
            EventType::EnterIdle => {
                let mut n: usize = 0;
                while n < self.thread_states.len()
                    invariant
                        n <= self.thread_states@.len(),
                        self.thread_states@.len() == old(self).thread_states@.len(),
                        self.prefetched_programs == old(self).prefetched_programs,
                        forall|i: int| 0 <= i < n ==> #[trigger] self.thread_states@[i] == ThreadState::Idle,
                    decreases self.thread_states@.len() - n,
                {
                    self.thread_states.set(n, ThreadState::Idle);
                    n = n + 1;
                }
            }
            _ => {}
        }
    }
}

/// The part of a trace of `count_total` entries that worker `n` of `max`
/// replays: `[low, high)` with `low = (count_total / max) * n` and, for
/// every worker but the last, `high = low + count_total / max`. The last
/// worker replays up to the end of the trace, so that together the workers
/// replay every entry.
pub open spec fn chunk_low(count_total: nat, max: nat, n: nat) -> nat {
    (count_total / max) * n
}

/// End of worker `n`'s part; see `chunk_low`.
pub open spec fn chunk_high(count_total: nat, max: nat, n: nat) -> nat {
    if n + 1 == max {
        count_total
    } else {
        (count_total / max) * n + count_total / max
    }
}

/// The bounds of worker `n`'s part of a trace of `count_total` entries
/// split among `max` workers.
pub fn work_chunk_bounds(count_total: usize, max: usize, n: usize) -> (r: (usize, usize))
    requires
        max > 0,
        n < max,
    ensures
        r.0 as nat == chunk_low(count_total as nat, max as nat, n as nat),
        r.1 as nat == chunk_high(count_total as nat, max as nat, n as nat),
        r.0 <= r.1 <= count_total,
{
    let per = count_total / max;
    proof {
        lemma_chunk_within(count_total as nat, max as nat, n as nat);
    }
    let low = per * n;
    let high = if n + 1 == max { count_total } else { low + per };
    (low, high)
}

proof fn lemma_chunk_within(count_total: nat, max: nat, n: nat)
    requires
        max > 0,
        n < max,
    ensures
        chunk_low(count_total, max, n) <= chunk_high(count_total, max, n) <= count_total,
        (count_total / max) * n + count_total / max <= count_total,
{
    let per = count_total / max;
    assert(per * (n + 1) <= per * max) by (nonlinear_arith)
        requires n + 1 <= max;
    assert(per * max <= count_total) by (nonlinear_arith)
        requires per == count_total / max, max > 0;
    assert(per * n + per == per * (n + 1)) by (nonlinear_arith);
}

/// The workers' parts of a trace do not overlap and follow each other in
/// order; every part lies within the trace; together they cover the whole
/// trace: the first starts at its beginning and the last ends at its end.
pub proof fn law_chunks_partition(count_total: nat, max: nat, n: nat, m: nat)
    requires
        max > 0,
        n < m < max,
    ensures
        chunk_high(count_total, max, n) <= chunk_low(count_total, max, m),
        chunk_high(count_total, max, m) <= count_total,
        chunk_high(count_total, max, n) == chunk_low(count_total, max, n + 1),
        chunk_low(count_total, max, 0) == 0,
        chunk_high(count_total, max, (max - 1) as nat) == count_total,
{
    let per = count_total / max;
    lemma_chunk_within(count_total, max, m);
    assert(per * n + per == per * (n + 1)) by (nonlinear_arith);
    assert(per * (n + 1) <= per * m) by (nonlinear_arith)
        requires n + 1 <= m;
    assert(per * 0 == 0) by (nonlinear_arith);
}

/// Worker `n`'s copy of its part of the trace.
pub fn work_chunk(trace_log: &Vec<TraceLogEntry>, max: usize, n: usize) -> (r: Vec<TraceLogEntry>)
    requires
        max > 0,
        n < max,
    ensures
        r@ == trace_log@.subrange(
            chunk_low(trace_log@.len(), max as nat, n as nat) as int,
            chunk_high(trace_log@.len(), max as nat, n as nat) as int,
        ),
{
    let (low, high) = work_chunk_bounds(trace_log.len(), max, n);
    let mut r: Vec<TraceLogEntry> = Vec::new();
    let mut i: usize = low;
    while i < high
        invariant
            low <= i <= high <= trace_log@.len(),
            r@ == trace_log@.subrange(low as int, i as int),
        decreases high - i,
    {
        r.push(trace_log[i].duplicate());
        proof {
            assert(trace_log@.subrange(low as int, i + 1) =~= trace_log@.subrange(low as int, i as int).push(trace_log@[i as int]));
        }
        i = i + 1;
    }
    r
}


/// Whether `s` is one of `list`.
pub fn contains_string(list: &Vec<String>, s: &String) -> (r: bool)
    ensures
        r == exists|i: int| 0 <= i < list@.len() && list@[i]@ == s@,
{
    let mut i: usize = 0;
    while i < list.len()
        invariant
            i <= list@.len(),
            forall|j: int| 0 <= j < i ==> list@[j]@ != s@,
        decreases list@.len() - i,
    {
        if list[i] == *s {
            assert(list@[i as int]@ == s@);
            return true;
        }
        i = i + 1;
    }
    false
}

/// `s` is one of `list`.
pub open spec fn listed(list: Seq<String>, s: Seq<char>) -> bool {
    exists|i: int| 0 <= i < list.len() && list[i]@ == s
}

/// Whether the prefetcher should map and lock `filename`: its name and the
/// file must be valid, it must not match a blacklist rule, and neither the
/// prefetcher (`mapped_files`), nor a replayed trace (`prefetched_programs`),
/// nor another plugin (`static_whitelist`) may have mapped it already.
pub fn shall_we_map_file(
    filename: &String,
    filename_valid: bool,
    file_valid: bool,
    blacklisted: bool,
    mapped_files: &Vec<String>,
    prefetched_programs: &Vec<String>,
    static_whitelist: &Vec<String>,
) -> (r: bool)
    ensures
        r == (filename_valid && file_valid && !blacklisted && !listed(mapped_files@, filename@)
            && !listed(prefetched_programs@, filename@) && !listed(static_whitelist@, filename@)),
{
    if !filename_valid {
        return false;
    }
    if !file_valid {
        return false;
    }
    if blacklisted {
        return false;
    }
    if contains_string(mapped_files, filename) {
        return false;
    }
    if contains_string(prefetched_programs, filename) {
        return false;
    }
    if contains_string(static_whitelist, filename) {
        return false;
    }
    true
}

/// Whether there is enough memory to prefetch: memory usage must be at or
/// below `threshold` percent. Without a memory reading there is not.
pub fn prefetcher_memory_allows(mem_usage_percentage: Option<u8>, threshold: u8) -> (r: bool)
    ensures
        r == match mem_usage_percentage {
            Some(p) => p <= threshold,
            None => false,
        },
{
    match mem_usage_percentage {
        Some(p) => p <= threshold,
        None => false,
    }
}

/// What a worker does with the next entry of its part of a trace.
#[derive(Debug, Clone, Copy, PartialEq, Eq, Structural)]
pub enum PrefetchStep {
    /// Memory ran low: stop replaying this trace.
    StopLowMemory,
    /// Leave this file alone.
    Skip,
    /// Map and lock this file.
    MapFile,
}

/// The next step of a worker: stop when memory is low, else map the file
/// when `shall_map` holds.
pub fn prefetch_step(memory_ok: bool, shall_map: bool) -> (r: PrefetchStep)
    ensures
        r == (if !memory_ok { PrefetchStep::StopLowMemory } else if shall_map { PrefetchStep::MapFile } else { PrefetchStep::Skip }),
{
    if !memory_ok {
        PrefetchStep::StopLowMemory
    } else if shall_map {
        PrefetchStep::MapFile
    } else {
        PrefetchStep::Skip
    }
}

/// The state of a worker after it tried to map `file`.
pub fn mapping_outcome(file: &String, mapped: bool) -> (r: ThreadState)
    ensures
        mapped ==> (r matches ThreadState::PrefetchedFile(f) && f@ == file@),
        !mapped ==> (r matches ThreadState::Error(f) && f@ == file@),
{
    if mapped {
        ThreadState::PrefetchedFile(file.clone())
    } else {
        ThreadState::Error(file.clone())
    }
}

/// The state of a worker after it tried to unmap `file`: it changes only
/// when the mapping was freed.
pub fn unmapping_outcome(file: &String, freed: bool) -> (r: Option<ThreadState>)
    ensures
        freed ==> (r matches Some(ThreadState::UnmappedFile(f)) && f@ == file@),
        !freed ==> r is None,
{
    if freed {
        Some(ThreadState::UnmappedFile(file.clone()))
    } else {
        None
    }
}

/// The state of a worker after it visited `file` to prime the metadata
/// caches: files with an invalid name or matching a blacklist rule are
/// skipped and leave the state alone.
pub fn metadata_outcome(file: &String, filename_valid: bool, blacklisted: bool) -> (r: Option<ThreadState>)
    ensures
        (filename_valid && !blacklisted) ==> (r matches Some(ThreadState::PrefetchedFileMetadata(f)) && f@ == file@),
        !(filename_valid && !blacklisted) ==> r is None,
{
    if !filename_valid {
        return None;
    }
    if blacklisted {
        return None;
    }
    Some(ThreadState::PrefetchedFileMetadata(file.clone()))
}

/// What replaying a process' I/O trace comes to.
#[derive(Debug, Clone, Copy, PartialEq, Eq, Structural)]
pub enum ReplayDecision {
    /// The trace is blacklisted: do not prefetch.
    SkipBlacklisted,
    /// The program's files are already cached.
    SkipCached,
    /// Prefetch the files of the trace.
    Prefetch,
}

/// Decide how to replay a found I/O trace.
pub fn replay_decision(trace_blacklisted: bool, exe_cached: bool) -> (r: ReplayDecision)
    ensures
        r == (if trace_blacklisted {
            ReplayDecision::SkipBlacklisted
        } else if exe_cached {
            ReplayDecision::SkipCached
        } else {
            ReplayDecision::Prefetch
        }),
{
    if trace_blacklisted {
        ReplayDecision::SkipBlacklisted
    } else if exe_cached {
        ReplayDecision::SkipCached
    } else {
        ReplayDecision::Prefetch
    }
}

/// The files that a worker opens when it replays its part of a trace, in
/// order.
pub fn opened_files(trace_log: &Vec<TraceLogEntry>) -> (r: Vec<String>)
    ensures
        r@.len() == trace_log@.len(),
        forall|i: int| 0 <= i < r@.len() ==> #[trigger] r@[i]@ == crate::iotrace::op_file(trace_log@[i].operation),
{
    let mut r: Vec<String> = Vec::new();
    let mut i: usize = 0;
    while i < trace_log.len()
        invariant
            i <= trace_log@.len(),
            r@.len() == i,
            forall|j: int| 0 <= j < i ==> #[trigger] r@[j]@ == crate::iotrace::op_file(trace_log@[j].operation),
        decreases trace_log@.len() - i,
    {
        match &trace_log[i].operation {
            IOOperation::Open(p) => r.push(p.clone()),
        }
        i = i + 1;
    }
    r
}

/// The files that the entries of `log` open, in order.
pub open spec fn log_files(log: Seq<TraceLogEntry>) -> Seq<Seq<char>> {
    log.map_values(|e: TraceLogEntry| crate::iotrace::op_file(e.operation))
}

/// The paths held in `list`.
pub open spec fn string_set(list: Seq<String>) -> Set<Seq<char>> {
    Set::new(|s: Seq<char>| listed(list, s))
}

/// No path occurs twice in `list`.
pub open spec fn distinct_strings(list: Seq<String>) -> bool {
    forall|i: int, j: int| 0 <= i < j < list.len() ==> #[trigger] list[i]@ != #[trigger] list[j]@
}

/// The files that unmapping the files `files` in turn reports as unmapped,
/// when `mapped` are the mapped files and `ok[i]` tells whether freeing the
/// mapping of the `i`-th file succeeds: a file is reported when it is still
/// mapped at its turn and its mapping is freed; either way it leaves the
/// table of mapped files.
pub open spec fn unmap_walk(files: Seq<Seq<char>>, mapped: Set<Seq<char>>, ok: Seq<bool>) -> Seq<Seq<char>>
    decreases files.len(),
{
    if files.len() == 0 {
        Seq::empty()
    } else {
        let f = files[0];
        let rest = unmap_walk(files.drop_first(), mapped.remove(f), ok.drop_first());
        if mapped.contains(f) && ok[0] {
            seq![f] + rest
        } else {
            rest
        }
    }
}

/// Every file that unmapping reports was mapped, and none is reported
/// twice.
pub proof fn lemma_unmap_walk_distinct(files: Seq<Seq<char>>, mapped: Set<Seq<char>>, ok: Seq<bool>)
    ensures
        forall|k: int| 0 <= k < unmap_walk(files, mapped, ok).len() ==> mapped.contains(#[trigger] unmap_walk(files, mapped, ok)[k]),
        forall|a: int, b: int| 0 <= a < b < unmap_walk(files, mapped, ok).len()
            ==> #[trigger] unmap_walk(files, mapped, ok)[a] != #[trigger] unmap_walk(files, mapped, ok)[b],
    decreases files.len(),
{
    if files.len() > 0 {
        let f = files[0];
        let m2 = mapped.remove(f);
        lemma_unmap_walk_distinct(files.drop_first(), m2, ok.drop_first());
        let rest = unmap_walk(files.drop_first(), m2, ok.drop_first());
        let w = unmap_walk(files, mapped, ok);
        if mapped.contains(f) && ok[0] {
            assert forall|k: int| 0 <= k < w.len() implies mapped.contains(#[trigger] w[k]) by {
                if k > 0 {
                    assert(w[k] == rest[k - 1]);
                }
            }
            assert forall|a: int, b: int| 0 <= a < b < w.len() implies #[trigger] w[a] != #[trigger] w[b] by {
                assert(w[b] == rest[b - 1]);
                assert(m2.contains(rest[b - 1]));
                if a > 0 {
                    assert(w[a] == rest[a - 1]);
                }
            }
        } else {
            assert forall|k: int| 0 <= k < w.len() implies mapped.contains(#[trigger] w[k]) by {
                assert(m2.contains(rest[k]));
            }
        }
    }
}

/// The position of `s` in `list`, if it is there.
fn find_string(list: &Vec<String>, s: &String) -> (r: Option<usize>)
    ensures
        match r {
            Some(k) => k < list@.len() && list@[k as int]@ == s@,
            None => !listed(list@, s@),
        },
{
    let mut i: usize = 0;
    while i < list.len()
        invariant
            i <= list@.len(),
            forall|j: int| 0 <= j < i ==> list@[j]@ != s@,
        decreases list@.len() - i,
    {
        if list[i] == *s {
            return Some(i);
        }
        i = i + 1;
    }
    None
}

/// The index of the last `true` among the first `n` flags, or -1 if there
/// is none.
pub open spec fn last_done(done: Seq<bool>, n: int) -> int
    decreases n,
{
    if n <= 0 {
        -1
    } else if done[n - 1] {
        n - 1
    } else {
        last_done(done, n - 1)
    }
}

/// Unmap the files of a replayed trace. `mapped` is the table of the files
/// that the prefetcher holds mapped, and `free_ok[i]` tells whether freeing
/// the mapping of the `i`-th entry's file succeeds. Each file of the trace
/// leaves the table; a file that was still mapped at its turn and whose
/// mapping was freed is reported. Returns the reported files, in order and
/// without repeats; the worker's state then names the last of them (it is
/// left alone when none was reported).
pub fn unmap_files(
    trace_log: &Vec<TraceLogEntry>,
    mapped: &mut Vec<String>,
    free_ok: &Vec<bool>,
    state: &mut ThreadState,
) -> (r: Vec<String>)
    requires
        free_ok@.len() == trace_log@.len(),
        distinct_strings(old(mapped)@),
    ensures
        r@.map_values(|s: String| s@) == unmap_walk(log_files(trace_log@), string_set(old(mapped)@), free_ok@),
        distinct_strings(r@),
        forall|k: int| 0 <= k < r@.len() ==> listed(old(mapped)@, #[trigger] r@[k]@),
        distinct_strings(final(mapped)@),
        forall|s: Seq<char>| #[trigger] listed(final(mapped)@, s) <==> (listed(old(mapped)@, s) && !log_files(trace_log@).contains(s)),
        r@.len() == 0 ==> *final(state) == *old(state),
        r@.len() > 0 ==> (*final(state) matches ThreadState::UnmappedFile(f) && f@ == r@.last()@),
{
    let ghost files = log_files(trace_log@);
    let ghost m0 = old(mapped)@;
    let ghost whole = unmap_walk(files, string_set(m0), free_ok@);
    let mut r: Vec<String> = Vec::new();
    let mut i: usize = 0;
    proof {
        assert(files.skip(0) =~= files);
        assert(free_ok@.skip(0) =~= free_ok@);
        assert(r@.map_values(|s: String| s@) + whole =~= whole);
    }
    while i < trace_log.len()
        invariant
            free_ok@.len() == trace_log@.len(),
            files == log_files(trace_log@),
            whole == unmap_walk(files, string_set(m0), free_ok@),
            i <= trace_log@.len(),
            distinct_strings(mapped@),
            forall|s: Seq<char>| #[trigger] listed(mapped@, s) <==> (listed(m0, s) && !files.subrange(0, i as int).contains(s)),
            r@.map_values(|s: String| s@) + unmap_walk(files.skip(i as int), string_set(mapped@), free_ok@.skip(i as int)) == whole,
            r@.len() == 0 ==> *state == *old(state),
            r@.len() > 0 ==> (*state matches ThreadState::UnmappedFile(f) && f@ == r@.last()@),
        decreases trace_log@.len() - i,
    {
        let file = match &trace_log[i].operation {
            IOOperation::Open(p) => p.clone(),
        };
        let ghost before = r@.map_values(|s: String| s@);
        let ghost m_before = mapped@;
        let ghost f = files[i as int];
        proof {
            assert(f == file@);
            let sk = files.skip(i as int);
            assert(sk[0] == f);
            assert(sk.drop_first() =~= files.skip(i + 1));
            assert(free_ok@.skip(i as int).drop_first() =~= free_ok@.skip(i + 1));
            assert(free_ok@.skip(i as int)[0] == free_ok@[i as int]);
        }
        match find_string(mapped, &file) {
            Some(k) => {
                if free_ok[i] {
                    *state = ThreadState::UnmappedFile(file.clone());
                    r.push(file);
                    proof {
                        assert(r@.map_values(|s: String| s@) =~= before.push(f));
                    }
                }
                mapped.remove(k);
                proof {
                    assert forall|a: int, b: int| 0 <= a < b < mapped@.len() implies #[trigger] mapped@[a]@ != #[trigger] mapped@[b]@ by {
                        let a0 = if a < k { a } else { a + 1 };
                        let b0 = if b < k { b } else { b + 1 };
                        assert(mapped@[a] == m_before[a0]);
                        assert(mapped@[b] == m_before[b0]);
                    }
                    assert forall|s: Seq<char>| #[trigger] listed(mapped@, s) <==> listed(m_before, s) && s != f by {
                        if listed(mapped@, s) {
                            let j = choose|j: int| 0 <= j < mapped@.len() && mapped@[j]@ == s;
                            let j0 = if j < k { j } else { j + 1 };
                            assert(mapped@[j] == m_before[j0]);
                            assert(m_before[k as int]@ == f);
                        }
                        if listed(m_before, s) && s != f {
                            let j = choose|j: int| 0 <= j < m_before.len() && m_before[j]@ == s;
                            assert(j != k);
                            let j1 = if j < k { j } else { j - 1 };
                            assert(mapped@[j1] == m_before[j]);
                        }
                    }
                    assert(string_set(m_before).contains(f));
                    assert(string_set(mapped@) =~= string_set(m_before).remove(f));
                    let tail = unmap_walk(files.skip(i + 1), string_set(mapped@), free_ok@.skip(i + 1));
                    if free_ok@[i as int] {
                        assert(before.push(f) + tail =~= before + (seq![f] + tail));
                    }
                }
            },
            None => {
                proof {
                    assert(!string_set(m_before).contains(f));
                    assert(string_set(m_before).remove(f) =~= string_set(m_before));
                }
            },
        }
        proof {
            assert forall|s: Seq<char>| #[trigger] listed(mapped@, s) <==> (listed(m0, s) && !files.subrange(0, i + 1).contains(s)) by {
                let p0 = files.subrange(0, i as int);
                let p1 = files.subrange(0, i + 1);
                assert(p1 =~= p0.push(f));
                if p1.contains(s) && !p0.contains(s) {
                    let j = choose|j: int| 0 <= j < p1.len() && p1[j] == s;
                    if j < i {
                        assert(p0[j] == s);
                    }
                }
                if p0.contains(s) {
                    let j = choose|j: int| 0 <= j < p0.len() && p0[j] == s;
                    assert(p1[j] == s);
                }
                if s == f {
                    assert(p1[i as int] == s);
                }
            }
        }
        i = i + 1;
    }
    proof {
        assert(files.skip(trace_log@.len() as int).len() == 0);
        assert(r@.map_values(|s: String| s@) + Seq::<Seq<char>>::empty() =~= r@.map_values(|s: String| s@));
        assert(files.subrange(0, files.len() as int) =~= files);
        lemma_unmap_walk_distinct(files, string_set(m0), free_ok@);
        let rv = r@.map_values(|s: String| s@);
        assert forall|a: int, b: int| 0 <= a < b < r@.len() implies #[trigger] r@[a]@ != #[trigger] r@[b]@ by {
            assert(rv[a] == whole[a]);
            assert(rv[b] == whole[b]);
        }
        assert forall|k: int| 0 <= k < r@.len() implies listed(m0, #[trigger] r@[k]@) by {
            assert(rv[k] == whole[k]);
            assert(string_set(m0).contains(whole[k]));
        }
    }
    r
}

/// Prime the metadata caches for the files of a replayed trace. The
/// `i`-th entry's file is visited when `visited[i]` holds: its name was
/// valid and it matched no blacklist rule. The worker's state then names
/// the last visited file (it is left alone when none was).
pub fn prefetch_statx_metadata(trace_log: &Vec<TraceLogEntry>, visited: &Vec<bool>, state: &mut ThreadState)
    requires
        visited@.len() == trace_log@.len(),
    ensures
        last_done(visited@, visited@.len() as int) < 0 ==> *final(state) == *old(state),
        last_done(visited@, visited@.len() as int) >= 0 ==> (*final(state) matches ThreadState::PrefetchedFileMetadata(f)
            && f@ == crate::iotrace::op_file(trace_log@[last_done(visited@, visited@.len() as int)].operation)),
{
    let mut i: usize = 0;
    while i < trace_log.len()
        invariant
            visited@.len() == trace_log@.len(),
            i <= trace_log@.len(),
            last_done(visited@, i as int) < 0 ==> *state == *old(state),
            last_done(visited@, i as int) >= 0 ==> (*state matches ThreadState::PrefetchedFileMetadata(f)
                && f@ == crate::iotrace::op_file(trace_log@[last_done(visited@, i as int)].operation)),
        decreases trace_log@.len() - i,
    {
        if visited[i] {
            let file = match &trace_log[i].operation {
                IOOperation::Open(p) => p.clone(),
            };
            *state = ThreadState::PrefetchedFileMetadata(file);
        }
        i = i + 1;
    }
}

} // verus!
