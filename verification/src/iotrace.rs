//! I/O trace logs: the record of the files that a program opened while it
//! started up, which the prefetcher later replays.

use vstd::prelude::*;
use crate::clock::{Timestamp, utc_now};
use crate::counts::{CountMap, counts_total};
use crate::hashing::{hash_program, program_hash};
use crate::i18n::MessageCatalog;

verus! {

/// An I/O operation recorded in an I/O trace log.
#[derive(Debug, Clone, PartialEq, Eq)]
pub enum IOOperation {
    /// The program opened the file with this path.
    Open(String),
}

/// The path that an operation touched.
pub open spec fn op_file(op: IOOperation) -> Seq<char> {
    match op {
        IOOperation::Open(p) => p@,
    }
}

/// An entry in an I/O trace log: the operation, when it happened, and how
/// many bytes it referenced.
#[derive(Debug, Clone)]
pub struct TraceLogEntry {
    /// When the I/O operation occurred.
    pub timestamp: Timestamp,
    /// The kind of I/O operation.
    pub operation: IOOperation,
    /// The size of the I/O operation, e.g. the number of bytes read.
    pub size: u64,
}

impl TraceLogEntry {
    /// A new entry for `operation` of `size` bytes, stamped with the current
    /// time.
    pub fn new(operation: IOOperation, size: u64) -> (e: TraceLogEntry)
        ensures
            e.operation == operation,
            e.size == size,
    {
        TraceLogEntry { timestamp: utc_now(), operation, size }
    }

    /// A copy of this entry.
    pub fn duplicate(&self) -> (e: TraceLogEntry)
        ensures
            e == *self,
    {
        let operation = match &self.operation {
            IOOperation::Open(p) => IOOperation::Open(p.clone()),
        };
        TraceLogEntry { timestamp: self.timestamp, operation, size: self.size }
    }
}

/// Status flags of a single I/O trace log entry.
#[derive(Debug, Clone, Copy, PartialEq, Eq, Hash, Structural)]
pub enum IOTraceLogEntryFlag {
    /// Unknown value
    Unknown,
    /// The entry has a valid format
    Valid,
    /// The entry has an invalid format
    Invalid,
    /// The destination file is accessible
    OK,
    /// The destination file is missing
    MissingFile,
}

/// Status flags of an I/O trace log.
#[derive(Debug, Clone, Copy, PartialEq, Eq, Hash, Structural)]
pub enum IOTraceLogFlag {
    /// Unknown value
    Unknown,
    /// The I/O trace has a valid format
    Valid,
    /// The I/O trace has an invalid format
    Invalid,
    /// The trace is younger than n days
    Fresh,
    /// The trace is older than n days
    Expired,
    /// The I/O trace is newer than its traced binary
    Current,
    /// The binary is newer than the I/O trace
    Outdated,
    /// The binary is missing
    MissingBinary,
}

/// The message id under which an entry flag's name is translated.
pub open spec fn entry_flag_message_id(flag: IOTraceLogEntryFlag) -> Seq<char> {
    match flag {
        IOTraceLogEntryFlag::Unknown => "unknown"@,
        IOTraceLogEntryFlag::Valid => "valid"@,
        IOTraceLogEntryFlag::Invalid => "invalid"@,
        IOTraceLogEntryFlag::OK => "ok"@,
        IOTraceLogEntryFlag::MissingFile => "missing-file"@,
    }
}

/// The message id under which a trace log flag's name is translated.
pub open spec fn log_flag_message_id(flag: IOTraceLogFlag) -> Seq<char> {
    match flag {
        IOTraceLogFlag::Unknown => "unknown"@,
        IOTraceLogFlag::Valid => "valid"@,
        IOTraceLogFlag::Invalid => "invalid"@,
        IOTraceLogFlag::Fresh => "fresh"@,
        IOTraceLogFlag::Expired => "expired"@,
        IOTraceLogFlag::Current => "current"@,
        IOTraceLogFlag::Outdated => "binary-newer"@,
        IOTraceLogFlag::MissingBinary => "missing-binary"@,
    }
}

/// The message id of an entry flag.
pub fn io_trace_log_entry_flag_message_id(flag: IOTraceLogEntryFlag) -> (id: &'static str)
    ensures
        id@ == entry_flag_message_id(flag),
{
    match flag {
        IOTraceLogEntryFlag::Unknown => "unknown",
        IOTraceLogEntryFlag::Valid => "valid",
        IOTraceLogEntryFlag::Invalid => "invalid",
        IOTraceLogEntryFlag::OK => "ok",
        IOTraceLogEntryFlag::MissingFile => "missing-file",
    }
}

/// The message id of a trace log flag.
pub fn io_trace_flag_message_id(flag: IOTraceLogFlag) -> (id: &'static str)
    ensures
        id@ == log_flag_message_id(flag),
{
    match flag {
        IOTraceLogFlag::Unknown => "unknown",
        IOTraceLogFlag::Valid => "valid",
        IOTraceLogFlag::Invalid => "invalid",
        IOTraceLogFlag::Fresh => "fresh",
        IOTraceLogFlag::Expired => "expired",
        IOTraceLogFlag::Current => "current",
        IOTraceLogFlag::Outdated => "binary-newer",
        IOTraceLogFlag::MissingBinary => "missing-binary",
    }
}

/// The translated name of an entry flag. A catalog without the flag's
/// message id cannot translate it.
pub fn map_io_trace_log_entry_flag_to_string(flag: IOTraceLogEntryFlag, catalog: &MessageCatalog) -> (s: String)
    requires
        catalog.lookup(entry_flag_message_id(flag)) is Some,
    ensures
        s@ == catalog.lookup(entry_flag_message_id(flag))->0,
{
    let id = io_trace_log_entry_flag_message_id(flag).to_string();
    match catalog.translate(&id) {
        Some(t) => t,
        None => String::new(),
    }
}

/// The translated name of a trace log flag. A catalog without the flag's
/// message id cannot translate it.
pub fn map_io_trace_flag_to_string(flag: IOTraceLogFlag, catalog: &MessageCatalog) -> (s: String)
    requires
        catalog.lookup(log_flag_message_id(flag)) is Some,
    ensures
        s@ == catalog.lookup(log_flag_message_id(flag))->0,
{
    let id = io_trace_flag_message_id(flag).to_string();
    match catalog.translate(&id) {
        Some(t) => t,
        None => String::new(),
    }
}


/// How many entries of `log` opened the file `f`.
pub open spec fn open_count(log: Seq<TraceLogEntry>, f: Seq<char>) -> nat
    decreases log.len(),
{
    if log.len() == 0 {
        0
    } else {
        open_count(log.drop_last(), f) + (if op_file(log.last().operation) == f { 1nat } else { 0nat })
    }
}

/// The total number of bytes that the entries of `log` reference.
pub open spec fn total_size(log: Seq<TraceLogEntry>) -> nat
    decreases log.len(),
{
    if log.len() == 0 {
        0
    } else {
        total_size(log.drop_last()) + log.last().size as nat
    }
}

/// Two logs hold the same data.
pub open spec fn same_log(a: IOTraceLog, b: IOTraceLog) -> bool {
    &&& a.hash@ == b.hash@
    &&& a.exe@ == b.exe@
    &&& a.comm@ == b.comm@
    &&& a.cmdline@ == b.cmdline@
    &&& a.created_at == b.created_at
    &&& a.trace_stopped_at == b.trace_stopped_at
    &&& a.file_map.entries@ == b.file_map.entries@
    &&& a.trace_log@ == b.trace_log@
    &&& a.accumulated_size == b.accumulated_size
    &&& a.trace_log_optimized == b.trace_log_optimized
    &&& a.blacklisted == b.blacklisted
}

/// An I/O trace log: the files that a traced process opened.
#[derive(Debug, Clone)]
pub struct IOTraceLog {
    /// Hash of the executable and command line of the traced process
    pub hash: String,
    /// Name of the executable file of the traced process
    pub exe: String,
    /// Command name of the traced process
    pub comm: String,
    /// Command line of the traced process
    pub cmdline: String,
    /// When this trace log was created
    pub created_at: Timestamp,
    /// When tracing stopped
    pub trace_stopped_at: Timestamp,
    /// How often each file was opened in the trace log
    pub file_map: CountMap,
    /// The relevant I/O operations that the traced process performed
    pub trace_log: Vec<TraceLogEntry>,
    /// The total amount of data in bytes that the trace log references
    pub accumulated_size: u64,
    /// Whether the trace log has been optimized already
    pub trace_log_optimized: bool,
    /// Whether the trace log has been blacklisted
    pub blacklisted: bool,
}

impl IOTraceLog {
    /// The bookkeeping of the log agrees with its entries: the file map
    /// counts, for every file, how many entries opened it (and holds no other
    /// file), and the accumulated size is the sum of the entries' sizes.
    pub open spec fn consistent(&self) -> bool {
        &&& self.file_map.wf()
        &&& self.accumulated_size as nat == total_size(self.trace_log@)
        &&& forall|f: Seq<char>| #[trigger] self.file_map.view_map().dom().contains(f) <==> open_count(self.trace_log@, f) > 0
        &&& forall|f: Seq<char>| #[trigger] self.file_map.view_map().dom().contains(f) ==> self.file_map.view_map()[f] == open_count(self.trace_log@, f)
    }

    /// Start the I/O trace log of a process whose executable is `exe`, of
    /// `exe_size` bytes. The log already holds the opening of the
    /// executable itself, which a tracer never sees.
    pub fn new(exe: String, comm: String, cmdline: String, exe_size: u64) -> (log: IOTraceLog)
        ensures
            log.consistent(),
            log.hash@ == program_hash(exe@, cmdline@),
            log.exe == exe,
            log.comm == comm,
            log.cmdline == cmdline,
            log.trace_log@.len() == 1,
            log.trace_log@[0].operation == IOOperation::Open(exe),
            log.trace_log@[0].size == exe_size,
            log.file_map.view_map() == Map::<Seq<char>, nat>::empty().insert(exe@, 1),
            log.accumulated_size == exe_size,
            counts_total(log.file_map.entries@) == log.trace_log@.len(),
            log.accumulated_size == total_size(log.trace_log@),
            !log.trace_log_optimized,
            !log.blacklisted,
    {
        let hash = hash_program(&exe, &cmdline);
        let mut file_map = CountMap::new();
        file_map.insert(exe.clone(), 1);
        let mut trace_log: Vec<TraceLogEntry> = Vec::new();
        trace_log.push(TraceLogEntry::new(IOOperation::Open(exe.clone()), exe_size));
        let created_at = utc_now();
        let trace_stopped_at = utc_now();
        let log = IOTraceLog {
            hash,
            exe,
            comm,
            cmdline,
            created_at,
            trace_stopped_at,
            file_map,
            trace_log,
            accumulated_size: exe_size,
            trace_log_optimized: false,
            blacklisted: false,
        };
        proof {
            let s = log.trace_log@;
            assert(s.drop_last() =~= Seq::<TraceLogEntry>::empty());
            assert forall|f: Seq<char>| #[trigger] log.file_map.view_map().dom().contains(f) <==> open_count(log.trace_log@, f) > 0 by {
                assert(open_count(s.drop_last(), f) == 0);
            }
            assert forall|f: Seq<char>| #[trigger] log.file_map.view_map().dom().contains(f) implies log.file_map.view_map()[f] == open_count(log.trace_log@, f) by {
                assert(open_count(s.drop_last(), f) == 0);
            }
            assert(total_size(s.drop_last()) == 0);
        }
        log
    }

    /// Record `op`, which referenced `size` bytes, at the end of the log,
    /// and count the opened file in the file map.
    pub fn add_event(&mut self, op: IOOperation, size: u64)
        requires
            old(self).file_map.wf(),
            old(self).accumulated_size + size <= u64::MAX,
            old(self).file_map.view_map().dom().contains(op_file(op)) ==> old(self).file_map.view_map()[op_file(op)] < usize::MAX,
        ensures
            final(self).trace_log@ == old(self).trace_log@.push(final(self).trace_log@.last()),
            final(self).trace_log@.last().operation == op,
            final(self).trace_log@.last().size == size,
            final(self).accumulated_size == old(self).accumulated_size + size,
            final(self).file_map.wf(),
            final(self).file_map.view_map() == old(self).file_map.view_map().insert(
                op_file(op),
                if old(self).file_map.view_map().dom().contains(op_file(op)) {
                    old(self).file_map.view_map()[op_file(op)] + 1
                } else {
                    1
                },
            ),
            final(self).hash == old(self).hash,
            final(self).exe == old(self).exe,
            final(self).comm == old(self).comm,
            final(self).cmdline == old(self).cmdline,
            final(self).created_at == old(self).created_at,
            final(self).trace_stopped_at == old(self).trace_stopped_at,
            final(self).trace_log_optimized == old(self).trace_log_optimized,
            final(self).blacklisted == old(self).blacklisted,
            old(self).consistent() ==> final(self).consistent(),
            counts_total(final(self).file_map.entries@) == counts_total(old(self).file_map.entries@) + 1,
            total_size(final(self).trace_log@) == total_size(old(self).trace_log@) + size,
            counts_total(old(self).file_map.entries@) == old(self).trace_log@.len()
                ==> counts_total(final(self).file_map.entries@) == final(self).trace_log@.len(),
            old(self).accumulated_size == total_size(old(self).trace_log@)
                ==> final(self).accumulated_size == total_size(final(self).trace_log@),
    {
        let ghost old_log = self.trace_log@;
        let ghost old_map = self.file_map.view_map();
        let file = match &op {
            IOOperation::Open(p) => p.clone(),
        };
        self.file_map.increment(file);
        let entry = TraceLogEntry::new(op, size);
        self.trace_log.push(entry);
        self.accumulated_size = self.accumulated_size + size;
        proof {
            let s = self.trace_log@;
            assert(s.drop_last() =~= old_log);
            if old(self).consistent() {
                let g = op_file(op);
                assert forall|f: Seq<char>| #[trigger] self.file_map.view_map().dom().contains(f) <==> open_count(self.trace_log@, f) > 0 by {
                    assert(open_count(s, f) == open_count(old_log, f) + (if g == f { 1nat } else { 0nat }));
                    if f != g {
                        assert(old_map.dom().contains(f) <==> open_count(old_log, f) > 0);
                    }
                }
                assert forall|f: Seq<char>| #[trigger] self.file_map.view_map().dom().contains(f) implies self.file_map.view_map()[f] == open_count(self.trace_log@, f) by {
                    assert(open_count(s, f) == open_count(old_log, f) + (if g == f { 1nat } else { 0nat }));
                    if f != g {
                        assert(old_map.dom().contains(f));
                    } else if old_map.dom().contains(f) {
                        assert(old_map[f] == open_count(old_log, f));
                    } else {
                        assert(!(open_count(old_log, f) > 0));
                    }
                }
            }
        }
    }

    /// A copy of this log.
    pub fn duplicate(&self) -> (r: IOTraceLog)
        ensures
            same_log(r, *self),
    {
        let mut entries: Vec<(String, usize)> = Vec::new();
        let mut i: usize = 0;
        while i < self.file_map.entries.len()
            invariant
                i <= self.file_map.entries@.len(),
                entries@ == self.file_map.entries@.subrange(0, i as int),
            decreases self.file_map.entries@.len() - i,
        {
            entries.push(crate::counts::clone_entry(&self.file_map.entries[i]));
            proof {
                assert(self.file_map.entries@.subrange(0, i + 1) =~= self.file_map.entries@.subrange(0, i as int).push(self.file_map.entries@[i as int]));
            }
            i = i + 1;
        }
        let mut log: Vec<TraceLogEntry> = Vec::new();
        let mut j: usize = 0;
        while j < self.trace_log.len()
            invariant
                j <= self.trace_log@.len(),
                log@ == self.trace_log@.subrange(0, j as int),
            decreases self.trace_log@.len() - j,
        {
            log.push(self.trace_log[j].duplicate());
            proof {
                assert(self.trace_log@.subrange(0, j + 1) =~= self.trace_log@.subrange(0, j as int).push(self.trace_log@[j as int]));
            }
            j = j + 1;
        }
        proof {
            assert(self.file_map.entries@.subrange(0, self.file_map.entries@.len() as int) =~= self.file_map.entries@);
            assert(self.trace_log@.subrange(0, self.trace_log@.len() as int) =~= self.trace_log@);
        }
        IOTraceLog {
            hash: self.hash.clone(),
            exe: self.exe.clone(),
            comm: self.comm.clone(),
            cmdline: self.cmdline.clone(),
            created_at: self.created_at,
            trace_stopped_at: self.trace_stopped_at,
            file_map: CountMap { entries },
            trace_log: log,
            accumulated_size: self.accumulated_size,
            trace_log_optimized: self.trace_log_optimized,
            blacklisted: self.blacklisted,
        }
    }

    /// Whether the log is worth keeping: it holds at least `min_len` entries
    /// and references at least `min_prefetch_size` bytes, or truncated logs
    /// are allowed.
    pub fn meets_save_criteria(&self, min_len: usize, min_prefetch_size: u64, allow_truncate: bool) -> (r: bool)
        ensures
            r == ((self.trace_log@.len() >= min_len && self.accumulated_size >= min_prefetch_size) || allow_truncate),
    {
        (self.trace_log.len() >= min_len && self.accumulated_size >= min_prefetch_size) || allow_truncate
    }
}

} // verus!
