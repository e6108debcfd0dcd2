//! Summaries that `iotracectl` prints about sets of I/O trace logs.

use vstd::prelude::*;
use crate::constants::IO_TRACE_EXPIRY_DAYS;
use crate::i18n::MessageCatalog;
use crate::status::StatusColor;
use crate::iotrace::{
    IOOperation, IOTraceLog, IOTraceLogEntryFlag, IOTraceLogFlag, TraceLogEntry, entry_flag_message_id,
    log_flag_message_id, map_io_trace_flag_to_string, map_io_trace_log_entry_flag_to_string, op_file,
};
use crate::lex::{lex_le, is_permutation, sort_order_by_keys};

verus! {

/// `parts` joined with `sep` between neighbours.
pub open spec fn joined(parts: Seq<Seq<char>>, sep: Seq<char>) -> Seq<char>
    decreases parts.len(),
{
    if parts.len() == 0 {
        Seq::empty()
    } else if parts.len() == 1 {
        parts[0]
    } else {
        joined(parts.drop_last(), sep) + sep + parts.last()
    }
}

/// The names of a log's flags, separated by `", "`.
pub fn join_flag_names(names: &Vec<String>) -> (r: String)
    ensures
        r@ == joined(names@.map_values(|s: String| s@), ", "@),
{
    let mut r = String::new();
    let ghost parts = names@.map_values(|s: String| s@);
    let mut i: usize = 0;
    while i < names.len()
        invariant
            i <= names@.len(),
            parts == names@.map_values(|s: String| s@),
            r@ == joined(parts.subrange(0, i as int), ", "@),
        decreases names@.len() - i,
    {
        let ghost before = r@;
        if i > 0 {
            r.append(", ");
        }
        r.append(names[i].as_str());
        proof {
            let p = parts.subrange(0, i + 1);
            assert(p.drop_last() =~= parts.subrange(0, i as int));
            assert(p.last() == names@[i as int]@);
            if i == 0 {
                assert(before == Seq::<char>::empty());
                assert(r@ =~= p[0]);
            }
        }
        i = i + 1;
    }
    proof {
        assert(parts.subrange(0, names@.len() as int) =~= parts);
    }
    r
}

/// How often a trace log opened each file, and the size it last reported.
#[derive(Debug, Clone)]
pub struct FileUse {
    pub file: String,
    pub count: usize,
    pub size: u64,
}

/// The memory that a set of trace logs would map: the sum of their I/O
/// sizes and operations, and for each distinct file how often it was
/// opened and its last size. A file's size counts once, at its first
/// opening.
#[derive(Debug, Clone)]
pub struct SizeSummary {
    pub acc_io_size: u64,
    pub acc_ioops: usize,
    pub acc_vm_size: u64,
    pub files: Vec<FileUse>,
}

/// The entries of all logs, in order.
pub open spec fn all_entries(traces: Seq<IOTraceLog>) -> Seq<TraceLogEntry>
    decreases traces.len(),
{
    if traces.len() == 0 {
        Seq::empty()
    } else {
        all_entries(traces.drop_last()) + traces.last().trace_log@
    }
}

/// Sum of the accumulated sizes of the logs.
pub open spec fn total_io_size(traces: Seq<IOTraceLog>) -> nat
    decreases traces.len(),
{
    if traces.len() == 0 {
        0
    } else {
        total_io_size(traces.drop_last()) + traces.last().accumulated_size as nat
    }
}

/// `f` is opened by one of `entries`.
pub open spec fn opened_in(entries: Seq<TraceLogEntry>, f: Seq<char>) -> bool {
    exists|i: int| 0 <= i < entries.len() && op_file(entries[i].operation) == f
}

/// The sum of the sizes of the first opening of each distinct file.
pub open spec fn first_open_size(entries: Seq<TraceLogEntry>) -> nat
    decreases entries.len(),
{
    if entries.len() == 0 {
        0
    } else {
        first_open_size(entries.drop_last()) + (if opened_in(entries.drop_last(), op_file(entries.last().operation)) {
            0nat
        } else {
            entries.last().size as nat
        })
    }
}

/// How many of `entries` opened `f`.
pub open spec fn count_opens(entries: Seq<TraceLogEntry>, f: Seq<char>) -> nat
    decreases entries.len(),
{
    if entries.len() == 0 {
        0
    } else {
        count_opens(entries.drop_last(), f) + (if op_file(entries.last().operation) == f { 1nat } else { 0nat })
    }
}

/// The size that the last opening of `f` among `entries` reported.
pub open spec fn last_size(entries: Seq<TraceLogEntry>, f: Seq<char>) -> u64
    decreases entries.len(),
{
    if entries.len() == 0 {
        0
    } else if op_file(entries.last().operation) == f {
        entries.last().size
    } else {
        last_size(entries.drop_last(), f)
    }
}

/// The per-file table describes `entries`: one row per distinct opened
/// file, with its count of openings and its last size.
pub open spec fn describes(files: Seq<FileUse>, entries: Seq<TraceLogEntry>) -> bool {
    &&& forall|i: int, j: int| 0 <= i < j < files.len() ==> #[trigger] files[i].file@ != #[trigger] files[j].file@
    &&& forall|i: int| 0 <= i < files.len() ==> opened_in(entries, #[trigger] files[i].file@)
        && files[i].count as nat == count_opens(entries, files[i].file@)
        && files[i].size == last_size(entries, files[i].file@)
    &&& forall|f: Seq<char>| opened_in(entries, f) ==> exists|i: int| 0 <= i < files.len() && #[trigger] files[i].file@ == f
}

/// The logs of a listing of (log, path of its file) pairs.
pub open spec fn logs_of(traces: Seq<(IOTraceLog, String)>) -> Seq<IOTraceLog> {
    traces.map_values(|p: (IOTraceLog, String)| p.0)
}

proof fn lemma_push_facts(seen: Seq<TraceLogEntry>, e: TraceLogEntry, f: Seq<char>)
    ensures
        opened_in(seen.push(e), f) <==> (opened_in(seen, f) || op_file(e.operation) == f),
        count_opens(seen.push(e), f) == count_opens(seen, f) + (if op_file(e.operation) == f { 1nat } else { 0nat }),
        last_size(seen.push(e), f) == (if op_file(e.operation) == f { e.size } else { last_size(seen, f) }),
        first_open_size(seen.push(e)) == first_open_size(seen) + (if opened_in(seen, op_file(e.operation)) { 0nat } else { e.size as nat }),
{
    let s2 = seen.push(e);
    assert(s2.drop_last() =~= seen);
    if opened_in(s2, f) {
        let i = choose|i: int| 0 <= i < s2.len() && op_file(s2[i].operation) == f;
        if i < seen.len() {
            assert(s2[i] == seen[i]);
        }
    }
    if opened_in(seen, f) {
        let i = choose|i: int| 0 <= i < seen.len() && op_file(seen[i].operation) == f;
        assert(s2[i] == seen[i]);
    }
    if op_file(e.operation) == f {
        assert(s2[seen.len() as int] == e);
    }
}

proof fn lemma_count_bounds(s: Seq<TraceLogEntry>, f: Seq<char>)
    ensures
        count_opens(s, f) <= s.len(),
        !opened_in(s, f) ==> count_opens(s, f) == 0,
    decreases s.len(),
{
    if s.len() > 0 {
        lemma_count_bounds(s.drop_last(), f);
        if !opened_in(s, f) {
            assert(s[s.len() - 1] == s.last());
            if opened_in(s.drop_last(), f) {
                let i = choose|i: int| 0 <= i < s.drop_last().len() && op_file(s.drop_last()[i].operation) == f;
                assert(s[i] == s.drop_last()[i]);
            }
        }
    }
}

proof fn lemma_first_open_prefix(s: Seq<TraceLogEntry>, k: int)
    requires
        0 <= k <= s.len(),
    ensures
        first_open_size(s.subrange(0, k)) <= first_open_size(s),
    decreases s.len(),
{
    if k < s.len() {
        lemma_first_open_prefix(s.drop_last(), k);
        assert(s.drop_last().subrange(0, k) =~= s.subrange(0, k));
    } else {
        assert(s.subrange(0, k) =~= s);
    }
}

proof fn lemma_total_io_prefix(s: Seq<IOTraceLog>, k: int)
    requires
        0 <= k <= s.len(),
    ensures
        total_io_size(s.subrange(0, k)) <= total_io_size(s),
    decreases s.len(),
{
    if k < s.len() {
        lemma_total_io_prefix(s.drop_last(), k);
        assert(s.drop_last().subrange(0, k) =~= s.subrange(0, k));
    } else {
        assert(s.subrange(0, k) =~= s);
    }
}

/// The position of the first entry that opened `f` (meaningful when one
/// did).
pub open spec fn first_index(entries: Seq<TraceLogEntry>, f: Seq<char>) -> int
    decreases entries.len(),
{
    if entries.len() == 0 {
        0
    } else if opened_in(entries.drop_last(), f) {
        first_index(entries.drop_last(), f)
    } else {
        entries.len() - 1
    }
}

/// The rows come in the order in which their files were first opened.
pub open spec fn in_first_open_order(files: Seq<FileUse>, entries: Seq<TraceLogEntry>) -> bool {
    forall|i: int, j: int| 0 <= i < j < files.len() ==> first_index(entries, #[trigger] files[i].file@) < first_index(entries, #[trigger] files[j].file@)
}

proof fn lemma_first_index_bound(s: Seq<TraceLogEntry>, f: Seq<char>)
    requires
        opened_in(s, f),
    ensures
        first_index(s, f) < s.len(),
    decreases s.len(),
{
    if opened_in(s.drop_last(), f) {
        lemma_first_index_bound(s.drop_last(), f);
    }
}

/// The sum of the opening counts of the rows.
pub open spec fn sum_counts(files: Seq<FileUse>) -> nat
    decreases files.len(),
{
    if files.len() == 0 {
        0
    } else {
        sum_counts(files.drop_last()) + files.last().count as nat
    }
}

proof fn lemma_sum_counts_push(files: Seq<FileUse>, row: FileUse)
    ensures
        sum_counts(files.push(row)) == sum_counts(files) + row.count as nat,
{
    assert(files.push(row).drop_last() =~= files);
}

proof fn lemma_sum_counts_update(files: Seq<FileUse>, j: int, row: FileUse)
    requires
        0 <= j < files.len(),
    ensures
        sum_counts(files.update(j, row)) + files[j].count as nat == sum_counts(files) + row.count as nat,
    decreases files.len(),
{
    let u = files.update(j, row);
    if j == files.len() - 1 {
        assert(u.drop_last() =~= files.drop_last());
    } else {
        assert(u.drop_last() =~= files.drop_last().update(j, row));
        lemma_sum_counts_update(files.drop_last(), j, row);
    }
}

/// Where `path` stands among the rows, if it has one.
fn find_file(files: &Vec<FileUse>, path: &String) -> (r: Option<usize>)
    ensures
        match r {
            Some(j) => j < files@.len() && files@[j as int].file@ == path@,
            None => forall|k: int| 0 <= k < files@.len() ==> (#[trigger] files@[k]).file@ != path@,
        },
{
    let mut j: usize = 0;
    while j < files.len()
        invariant
            j <= files@.len(),
            forall|k: int| 0 <= k < j ==> (#[trigger] files@[k]).file@ != path@,
        decreases files@.len() - j,
    {
        if files[j].file.eq(path) {
            return Some(j);
        }
        j = j + 1;
    }
    None
}

/// Count one more entry into the per-file table and the mapped size.
fn note_entry(files: &mut Vec<FileUse>, acc_vm_size: &mut u64, entry: &TraceLogEntry, Ghost(seen): Ghost<Seq<TraceLogEntry>>)
    requires
        describes(old(files)@, seen),
        *old(acc_vm_size) == first_open_size(seen),
        first_open_size(seen.push(*entry)) <= u64::MAX,
        seen.len() < usize::MAX,
        sum_counts(old(files)@) == seen.len(),
        in_first_open_order(old(files)@, seen),
    ensures
        describes(final(files)@, seen.push(*entry)),
        sum_counts(final(files)@) == seen.len() + 1,
        in_first_open_order(final(files)@, seen.push(*entry)),
        *final(acc_vm_size) == first_open_size(seen.push(*entry)),
{
    let path: &String = match &entry.operation {
        IOOperation::Open(p) => p,
    };
    let ghost f = path@;
    let ghost s2 = seen.push(*entry);
    assert(op_file(entry.operation) == f);
    proof {
        lemma_push_facts(seen, *entry, f);
        lemma_count_bounds(seen, f);
    }
    let ghost old_files = files@;
    match find_file(files, path) {
        Some(j) => {
            assert(opened_in(seen, f));
            let row = FileUse { file: files[j].file.clone(), count: files[j].count + 1, size: entry.size };
            files.set(j, row);
            proof {
                lemma_sum_counts_update(old_files, j as int, row);
                assert(files@ == old_files.update(j as int, row));
                assert(s2.drop_last() =~= seen);
                assert forall|a: int, b: int| 0 <= a < b < files@.len() implies first_index(s2, #[trigger] files@[a].file@) < first_index(s2, #[trigger] files@[b].file@) by {
                    assert(files@[a].file@ == old_files[a].file@);
                    assert(files@[b].file@ == old_files[b].file@);
                    assert(opened_in(seen, old_files[a].file@));
                    assert(opened_in(seen, old_files[b].file@));
                }
                assert forall|k: int| 0 <= k < files@.len() implies opened_in(s2, #[trigger] files@[k].file@)
                    && files@[k].count as nat == count_opens(s2, files@[k].file@)
                    && files@[k].size == last_size(s2, files@[k].file@) by {
                    lemma_push_facts(seen, *entry, files@[k].file@);
                    if k != j {
                        assert(files@[k] == old_files[k]);
                    }
                }
                assert forall|g: Seq<char>| opened_in(s2, g) implies exists|i: int| 0 <= i < files@.len() && #[trigger] files@[i].file@ == g by {
                    lemma_push_facts(seen, *entry, g);
                    if g == f {
                        assert(files@[j as int].file@ == g);
                    } else {
                        let i = choose|i: int| 0 <= i < old_files.len() && #[trigger] old_files[i].file@ == g;
                        assert(files@[i].file@ == g);
                    }
                }
            }
        },
        None => {
            assert(!opened_in(seen, f));
            let row = FileUse { file: path.clone(), count: 1, size: entry.size };
            files.push(row);
            *acc_vm_size = *acc_vm_size + entry.size;
            proof {
                lemma_sum_counts_push(old_files, row);
                assert(s2.drop_last() =~= seen);
                assert(first_index(s2, f) == seen.len());
                assert forall|a: int, b: int| 0 <= a < b < files@.len() implies first_index(s2, #[trigger] files@[a].file@) < first_index(s2, #[trigger] files@[b].file@) by {
                    assert(files@[a] == old_files[a]);
                    assert(opened_in(seen, old_files[a].file@));
                    lemma_first_index_bound(seen, old_files[a].file@);
                    if b < old_files.len() {
                        assert(files@[b] == old_files[b]);
                        assert(opened_in(seen, old_files[b].file@));
                    } else {
                        assert(files@[b].file@ == f);
                    }
                }
                assert forall|k: int| 0 <= k < files@.len() implies opened_in(s2, #[trigger] files@[k].file@)
                    && files@[k].count as nat == count_opens(s2, files@[k].file@)
                    && files@[k].size == last_size(s2, files@[k].file@) by {
                    lemma_push_facts(seen, *entry, files@[k].file@);
                    if k < old_files.len() {
                        assert(files@[k] == old_files[k]);
                    }
                }
                assert forall|g: Seq<char>| opened_in(s2, g) implies exists|i: int| 0 <= i < files@.len() && #[trigger] files@[i].file@ == g by {
                    lemma_push_facts(seen, *entry, g);
                    if g == f {
                        assert(files@[old_files.len() as int].file@ == g);
                    } else {
                        let i = choose|i: int| 0 <= i < old_files.len() && #[trigger] old_files[i].file@ == g;
                        assert(files@[i].file@ == g);
                    }
                }
                assert forall|a: int, b: int| 0 <= a < b < files@.len() implies #[trigger] files@[a].file@ != #[trigger] files@[b].file@ by {
                    if b < old_files.len() {
                        assert(files@[a] == old_files[a]);
                        assert(files@[b] == old_files[b]);
                    } else {
                        assert(files@[a] == old_files[a]);
                    }
                }
            }
        },
    }
}

/// All entries of the listed logs, in order, as one sequence.
fn flatten_entries(traces: &Vec<(IOTraceLog, String)>) -> (flat: Vec<TraceLogEntry>)
    ensures
        flat@ == all_entries(logs_of(traces@)),
{
    let mut flat: Vec<TraceLogEntry> = Vec::new();
    let ghost logs = logs_of(traces@);
    let mut t: usize = 0;
    while t < traces.len()
        invariant
            t <= traces@.len(),
            logs == logs_of(traces@),
            flat@ == all_entries(logs.subrange(0, t as int)),
        decreases traces@.len() - t,
    {
        let log = &traces[t].0.trace_log;
        let ghost base = flat@;
        let mut k: usize = 0;
        while k < log.len()
            invariant
                k <= log@.len(),
                flat@ == base + log@.subrange(0, k as int),
            decreases log@.len() - k,
        {
            flat.push(log[k].duplicate());
            proof {
                assert(log@.subrange(0, k + 1) =~= log@.subrange(0, k as int).push(log@[k as int]));
            }
            k = k + 1;
        }
        proof {
            assert(log@.subrange(0, log@.len() as int) =~= log@);
            assert(logs.subrange(0, t + 1).drop_last() =~= logs.subrange(0, t as int));
            assert(logs.subrange(0, t + 1).last() == logs[t as int]);
            assert(logs[t as int] == traces@[t as int].0);
        }
        t = t + 1;
    }
    proof {
        assert(logs.subrange(0, traces@.len() as int) =~= logs);
    }
    flat
}

/// What the listed logs would map: the sum of their I/O sizes and
/// operations, the size of each distinct opened file counted once, and the
/// table of files with their numbers of openings and last sizes, in the
/// order in which each file was first opened.
pub fn size_summary(traces: &Vec<(IOTraceLog, String)>) -> (r: SizeSummary)
    requires
        total_io_size(logs_of(traces@)) <= u64::MAX,
        first_open_size(all_entries(logs_of(traces@))) <= u64::MAX,
    ensures
        r.acc_io_size == total_io_size(logs_of(traces@)),
        r.acc_ioops == all_entries(logs_of(traces@)).len(),
        r.acc_vm_size == first_open_size(all_entries(logs_of(traces@))),
        describes(r.files@, all_entries(logs_of(traces@))),
        in_first_open_order(r.files@, all_entries(logs_of(traces@))),
        sum_counts(r.files@) == r.acc_ioops,
{
    let ghost logs = logs_of(traces@);
    let mut acc_io_size: u64 = 0;
    let mut t: usize = 0;
    while t < traces.len()
        invariant
            t <= traces@.len(),
            logs == logs_of(traces@),
            total_io_size(logs) <= u64::MAX,
            acc_io_size == total_io_size(logs.subrange(0, t as int)),
        decreases traces@.len() - t,
    {
        proof {
            assert(logs.subrange(0, t + 1).drop_last() =~= logs.subrange(0, t as int));
            assert(logs[t as int] == traces@[t as int].0);
            lemma_total_io_prefix(logs, t + 1);
        }
        acc_io_size = acc_io_size + traces[t].0.accumulated_size;
        t = t + 1;
    }
    proof {
        assert(logs.subrange(0, traces@.len() as int) =~= logs);
    }
    let flat = flatten_entries(traces);
    let mut files: Vec<FileUse> = Vec::new();
    let mut acc_vm_size: u64 = 0;
    let mut i: usize = 0;
    proof {
        assert(flat@.subrange(0, 0) =~= Seq::<TraceLogEntry>::empty());
    }
    while i < flat.len()
        invariant
            i <= flat@.len(),
            first_open_size(flat@) <= u64::MAX,
            describes(files@, flat@.subrange(0, i as int)),
            sum_counts(files@) == i,
            in_first_open_order(files@, flat@.subrange(0, i as int)),
            acc_vm_size == first_open_size(flat@.subrange(0, i as int)),
        decreases flat@.len() - i,
    {
        proof {
            assert(flat@.subrange(0, i + 1) =~= flat@.subrange(0, i as int).push(flat@[i as int]));
            lemma_first_open_prefix(flat@, i + 1);
        }
        note_entry(&mut files, &mut acc_vm_size, &flat[i], Ghost(flat@.subrange(0, i as int)));
        i = i + 1;
    }
    proof {
        assert(flat@.subrange(0, flat@.len() as int) =~= flat@);
    }
    SizeSummary { acc_io_size, acc_ioops: flat.len(), acc_vm_size, files }
}

/// The key by which the table of files is ordered: number of openings,
/// then size.
pub open spec fn file_key(u: FileUse) -> Seq<u64> {
    seq![u.count as u64, u.size]
}

/// The rows of `files`, most often opened first; rows opened equally often
/// come by size, largest first.
pub fn files_by_references(files: &Vec<FileUse>) -> (r: Vec<FileUse>)
    ensures
        exists|perm: Seq<usize>| is_permutation(perm, files@.len()) && r@.len() == perm.len()
            && forall|i: int| 0 <= i < r@.len() ==> {
                let src = #[trigger] files@[perm[i] as int];
                r@[i].file@ == src.file@ && r@[i].count == src.count && r@[i].size == src.size
            },
        forall|i: int, j: int| 0 <= i < j < r@.len() ==> lex_le(file_key(r@[j]), file_key(r@[i])),
{
    let mut keys: Vec<Vec<u64>> = Vec::new();
    let mut i: usize = 0;
    while i < files.len()
        invariant
            i <= files@.len(),
            keys@.len() == i,
            forall|j: int| 0 <= j < i ==> (#[trigger] keys@[j])@ == file_key(files@[j]),
        decreases files@.len() - i,
    {
        let mut k: Vec<u64> = Vec::new();
        k.push(files[i].count as u64);
        k.push(files[i].size);
        proof {
            assert(k@ =~= file_key(files@[i as int]));
        }
        keys.push(k);
        i = i + 1;
    }
    let perm = sort_order_by_keys(&keys, true);
    let mut r: Vec<FileUse> = Vec::new();
    let mut m: usize = 0;
    while m < perm.len()
        invariant
            m <= perm@.len(),
            is_permutation(perm@, keys@.len()),
            keys@.len() == files@.len(),
            r@.len() == m,
            forall|q: int| 0 <= q < m ==> {
                let src = #[trigger] files@[perm@[q] as int];
                r@[q].file@ == src.file@ && r@[q].count == src.count && r@[q].size == src.size
            },
        decreases perm@.len() - m,
    {
        let idx = perm[m];
        assert(perm@[m as int] < keys@.len());
        let row = FileUse { file: files[idx].file.clone(), count: files[idx].count, size: files[idx].size };
        r.push(row);
        m = m + 1;
    }
    proof {
        assert forall|i: int, j: int| 0 <= i < j < r@.len() implies lex_le(file_key(r@[j]), file_key(r@[i])) by {
            assert(perm@[i] < keys@.len());
            assert(perm@[j] < keys@.len());
            assert(file_key(r@[i]) == keys@[perm@[i] as int]@);
            assert(file_key(r@[j]) == keys@[perm@[j] as int]@);
        }
    }
    r
}

/// The translated names of a trace log's flags, separated by `", "`.
pub fn io_trace_flags_text(flags: &Vec<IOTraceLogFlag>, catalog: &MessageCatalog) -> (r: String)
    requires
        forall|i: int| 0 <= i < flags@.len() ==> catalog.lookup(log_flag_message_id(#[trigger] flags@[i])) is Some,
    ensures
        r@ == joined(flags@.map_values(|f: IOTraceLogFlag| catalog.lookup(log_flag_message_id(f))->0), ", "@),
{
    let mut names: Vec<String> = Vec::new();
    let mut i: usize = 0;
    while i < flags.len()
        invariant
            i <= flags@.len(),
            forall|k: int| 0 <= k < flags@.len() ==> catalog.lookup(log_flag_message_id(#[trigger] flags@[k])) is Some,
            names@.len() == i,
            forall|k: int| 0 <= k < i ==> (#[trigger] names@[k])@ == catalog.lookup(log_flag_message_id(flags@[k]))->0,
        decreases flags@.len() - i,
    {
        names.push(map_io_trace_flag_to_string(flags[i], catalog));
        i = i + 1;
    }
    proof {
        assert(names@.map_values(|s: String| s@) =~= flags@.map_values(|f: IOTraceLogFlag| catalog.lookup(log_flag_message_id(f))->0));
    }
    join_flag_names(&names)
}

/// The translated names of a trace log entry's flags, separated by `", "`.
pub fn io_trace_entry_flags_text(flags: &Vec<IOTraceLogEntryFlag>, catalog: &MessageCatalog) -> (r: String)
    requires
        forall|i: int| 0 <= i < flags@.len() ==> catalog.lookup(entry_flag_message_id(#[trigger] flags@[i])) is Some,
    ensures
        r@ == joined(flags@.map_values(|f: IOTraceLogEntryFlag| catalog.lookup(entry_flag_message_id(f))->0), ", "@),
{
    let mut names: Vec<String> = Vec::new();
    let mut i: usize = 0;
    while i < flags.len()
        invariant
            i <= flags@.len(),
            forall|k: int| 0 <= k < flags@.len() ==> catalog.lookup(entry_flag_message_id(#[trigger] flags@[k])) is Some,
            names@.len() == i,
            forall|k: int| 0 <= k < i ==> (#[trigger] names@[k])@ == catalog.lookup(entry_flag_message_id(flags@[k]))->0,
        decreases flags@.len() - i,
    {
        names.push(map_io_trace_log_entry_flag_to_string(flags[i], catalog));
        i = i + 1;
    }
    proof {
        assert(names@.map_values(|s: String| s@) =~= flags@.map_values(|f: IOTraceLogEntryFlag| catalog.lookup(entry_flag_message_id(f))->0));
    }
    join_flag_names(&names)
}

/// The status flags of a readable trace log, whether one of them is an
/// error, and the color they are shown in.
#[derive(Debug, Clone)]
pub struct TraceFlags {
    pub flags: Vec<IOTraceLogFlag>,
    pub err: bool,
    pub color: StatusColor,
}

/// Seconds in the expiry period of trace logs.
pub open spec fn expiry_secs() -> int {
    IO_TRACE_EXPIRY_DAYS as int * 86400
}

/// The flags of a readable trace log created at `created`, checked at
/// `now`: it is valid; it is fresh while it is at most
/// `IO_TRACE_EXPIRY_DAYS` days old and expired after that; it is current
/// when its binary was last modified no later than the log was created,
/// outdated when the binary is newer, and flagged as missing its binary
/// when there is none. A missing binary is an error; the flags are shown in
/// red then, in yellow for an expired or outdated log, else in green.
pub open spec fn trace_flags_spec(created: i64, now: i64, binary_modified: Option<i64>) -> (Seq<IOTraceLogFlag>, bool, StatusColor) {
    let age = if now - created > expiry_secs() { IOTraceLogFlag::Expired } else { IOTraceLogFlag::Fresh };
    let binary = match binary_modified {
        None => IOTraceLogFlag::MissingBinary,
        Some(m) => if m > created { IOTraceLogFlag::Outdated } else { IOTraceLogFlag::Current },
    };
    let err = binary_modified is None;
    let color = if err {
        StatusColor::Red
    } else if age == IOTraceLogFlag::Expired || binary == IOTraceLogFlag::Outdated {
        StatusColor::Yellow
    } else {
        StatusColor::Green
    };
    (seq![IOTraceLogFlag::Valid, age, binary], err, color)
}

/// Whether `flags` holds `flag`.
pub open spec fn holds_flag(flags: Seq<IOTraceLogFlag>, flag: IOTraceLogFlag) -> bool {
    exists|i: int| 0 <= i < flags.len() && flags[i] == flag
}

/// The flags of a trace log follow its binary and its age: a log whose
/// binary was modified after the log was created is outdated, never
/// current, and not shown in green; one whose binary is no newer than the
/// log is current, never outdated; one without a binary is an error, shown
/// in red. A log older than the expiry period is expired, never fresh, and
/// not shown in green; a younger one is fresh. Green means fresh and
/// current.
pub proof fn law_trace_flags_follow_binary_and_age(created: i64, now: i64, binary_modified: Option<i64>)
    ensures
        ({
            let (flags, err, color) = trace_flags_spec(created, now, binary_modified);
            &&& holds_flag(flags, IOTraceLogFlag::Valid)
            &&& (binary_modified matches Some(m) && m > created) ==> holds_flag(flags, IOTraceLogFlag::Outdated)
                && !holds_flag(flags, IOTraceLogFlag::Current) && color != StatusColor::Green && !err
            &&& (binary_modified matches Some(m) && m <= created) ==> holds_flag(flags, IOTraceLogFlag::Current)
                && !holds_flag(flags, IOTraceLogFlag::Outdated) && !err
            &&& binary_modified is None ==> holds_flag(flags, IOTraceLogFlag::MissingBinary) && err && color == StatusColor::Red
            &&& now - created > IO_TRACE_EXPIRY_DAYS * 86400 ==> holds_flag(flags, IOTraceLogFlag::Expired)
                && !holds_flag(flags, IOTraceLogFlag::Fresh) && color != StatusColor::Green
            &&& now - created <= IO_TRACE_EXPIRY_DAYS * 86400 ==> holds_flag(flags, IOTraceLogFlag::Fresh)
                && !holds_flag(flags, IOTraceLogFlag::Expired)
            &&& color == StatusColor::Green <==> (holds_flag(flags, IOTraceLogFlag::Fresh) && holds_flag(flags, IOTraceLogFlag::Current))
        }),
{
    let (flags, err, color) = trace_flags_spec(created, now, binary_modified);
    assert(flags[0] == IOTraceLogFlag::Valid);
    let age = flags[1];
    let binary = flags[2];
    assert forall|f: IOTraceLogFlag| holds_flag(flags, f) <==> (f == IOTraceLogFlag::Valid || f == age || f == binary) by {
        if f == age {
            assert(flags[1] == f);
        }
        if f == binary {
            assert(flags[2] == f);
        }
    }
    assert(age == IOTraceLogFlag::Fresh || age == IOTraceLogFlag::Expired);
    assert(binary == IOTraceLogFlag::Current || binary == IOTraceLogFlag::Outdated || binary == IOTraceLogFlag::MissingBinary);
}

/// A trace log only ages and its binary only gets newer: if a log is
/// expired at `now1`, it is expired at every later `now2`; if it is
/// outdated against a binary modified at `m1`, it is outdated against every
/// later modification `m2`.
pub proof fn law_trace_flags_monotone(created: i64, now1: i64, now2: i64, m1: i64, m2: i64)
    requires
        now1 <= now2,
        m1 <= m2,
    ensures
        trace_flags_spec(created, now1, Some(m1)).0[1] == IOTraceLogFlag::Expired
            ==> trace_flags_spec(created, now2, Some(m1)).0[1] == IOTraceLogFlag::Expired,
        trace_flags_spec(created, now1, Some(m1)).0[2] == IOTraceLogFlag::Outdated
            ==> trace_flags_spec(created, now1, Some(m2)).0[2] == IOTraceLogFlag::Outdated,
{
}

/// Check a readable trace log; see `trace_flags_spec`.
pub fn trace_log_flags(created: i64, now: i64, binary_modified: Option<i64>) -> (r: TraceFlags)
    ensures
        (r.flags@, r.err, r.color) == trace_flags_spec(created, now, binary_modified),
{
    let expiry: i128 = (IO_TRACE_EXPIRY_DAYS as i128) * 86400;
    let expired = (now as i128) - (created as i128) > expiry;
    let age = if expired { IOTraceLogFlag::Expired } else { IOTraceLogFlag::Fresh };
    let binary = match binary_modified {
        None => IOTraceLogFlag::MissingBinary,
        Some(m) => if m > created { IOTraceLogFlag::Outdated } else { IOTraceLogFlag::Current },
    };
    let err = binary_modified.is_none();
    let color = if err {
        StatusColor::Red
    } else if expired || binary == IOTraceLogFlag::Outdated {
        StatusColor::Yellow
    } else {
        StatusColor::Green
    };
    let mut flags: Vec<IOTraceLogFlag> = Vec::new();
    flags.push(IOTraceLogFlag::Valid);
    flags.push(age);
    flags.push(binary);
    proof {
        assert(flags@ =~= seq![IOTraceLogFlag::Valid, age, binary]);
    }
    TraceFlags { flags, err, color }
}

/// The status flags of a trace log entry: it is valid, and its file is
/// either there or missing; a missing file is an error, shown in red.
pub fn trace_entry_flags(file_exists: bool) -> (r: (Vec<IOTraceLogEntryFlag>, bool, StatusColor))
    ensures
        r.0@ == seq![IOTraceLogEntryFlag::Valid, if file_exists { IOTraceLogEntryFlag::OK } else { IOTraceLogEntryFlag::MissingFile }],
        r.1 == !file_exists,
        r.2 == (if file_exists { StatusColor::Green } else { StatusColor::Red }),
{
    let mut flags: Vec<IOTraceLogEntryFlag> = Vec::new();
    flags.push(IOTraceLogEntryFlag::Valid);
    flags.push(if file_exists { IOTraceLogEntryFlag::OK } else { IOTraceLogEntryFlag::MissingFile });
    proof {
        assert(flags@ =~= seq![IOTraceLogEntryFlag::Valid, if file_exists { IOTraceLogEntryFlag::OK } else { IOTraceLogEntryFlag::MissingFile }]);
    }
    (flags, !file_exists, if file_exists { StatusColor::Green } else { StatusColor::Red })
}

} // verus!
