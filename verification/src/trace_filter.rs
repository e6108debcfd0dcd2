//! Selecting and ordering I/O trace logs for display, as `iotracectl`
//! lists them.

use vstd::prelude::*;
use vstd::string::StrSliceExecFns;
use crate::i18n::MessageCatalog;
use crate::iotrace::{IOTraceLog, IOTraceLogFlag, same_log};
use crate::lex::{lex_le, ordered_by_keys, is_permutation, sort_order_by_keys, stable_by_keys};
use crate::path_order::{path_key, path_sort_key};
use crate::tracer::{contains_flag, has_flag};

verus! {

/// `needle` occurs in `hay` as a contiguous part.
pub open spec fn has_substring(hay: Seq<char>, needle: Seq<char>) -> bool {
    exists|i: int| 0 <= i && i + needle.len() <= hay.len() && #[trigger] hay.subrange(i, i + needle.len()) == needle
}

/// Whether `needle` occurs in `hay`.
pub fn contains_substring(hay: &String, needle: &String) -> (r: bool)
    ensures
        r == has_substring(hay@, needle@),
{
    let h = hay.as_str();
    let nd = needle.as_str();
    let hn = h.unicode_len();
    let nn = nd.unicode_len();
    if nn > hn {
        proof {
            assert forall|i: int| 0 <= i && i + needle@.len() <= hay@.len() implies !(#[trigger] hay@.subrange(i, i + needle@.len()) == needle@) by {}
        }
        return false;
    }
    let mut i: usize = 0;
    while i <= hn - nn
        invariant
            hn == hay@.len(),
            nn == needle@.len(),
            nn <= hn,
            h@ == hay@,
            nd@ == needle@,
            i <= hn - nn + 1,
            forall|j: int| 0 <= j < i ==> #[trigger] hay@.subrange(j, j + nn) != needle@,
        decreases hn - nn + 1 - i,
    {
        let mut k: usize = 0;
        while k < nn && h.get_char(i + k) == nd.get_char(k)
            invariant
                hn == hay@.len(),
                nn == needle@.len(),
                i + nn <= hn,
                h@ == hay@,
                nd@ == needle@,
                k <= nn,
                forall|m: int| 0 <= m < k ==> hay@[i + m] == needle@[m],
            decreases nn - k,
        {
            k = k + 1;
        }
        if k == nn {
            proof {
                assert(hay@.subrange(i as int, i + nn) =~= needle@);
            }
            return true;
        }
        proof {
            assert(hay@.subrange(i as int, i + nn)[k as int] != needle@[k as int]);
        }
        i = i + 1;
    }
    proof {
        assert forall|j: int| 0 <= j && j + needle@.len() <= hay@.len() implies !(#[trigger] hay@.subrange(j, j + needle@.len()) == needle@) by {
            assert(j < i);
        }
    }
    false
}

/// A yes/no filter given on the command line.
#[derive(Debug, Clone, Copy, PartialEq, Eq, Structural)]
pub enum BoolFilter {
    /// Only logs with the property.
    Yes,
    /// Only logs without the property.
    No,
    /// The value could not be parsed; the filter is ignored.
    Unparsable,
}

/// The filters of a listing; each is optional.
#[derive(Debug, Clone)]
pub struct TraceFilter {
    pub hash: Option<String>,
    pub executable: Option<String>,
    pub optimized: Option<BoolFilter>,
    pub blacklisted: Option<BoolFilter>,
    /// The requested flag, as its lower-cased translated filter name.
    pub flags: Option<String>,
}

/// The translation of message `id`, which the catalog must hold.
pub open spec fn word(catalog: MessageCatalog, id: Seq<char>) -> Seq<char> {
    catalog.lookup(id)->0
}

/// Whether `value` is the translation of message `id`.
fn is_word(value: &String, catalog: &MessageCatalog, id: &str) -> (r: bool)
    requires
        catalog.lookup(id@) is Some,
    ensures
        r == (value@ == word(*catalog, id@)),
{
    match catalog.translate(&id.to_string()) {
        Some(t) => *value == t,
        None => false,
    }
}

/// Parse a yes/no filter: the translations of `true` and `false`.
pub fn parse_bool_filter(value: &String, catalog: &MessageCatalog) -> (r: BoolFilter)
    requires
        catalog.lookup("true"@) is Some,
        catalog.lookup("false"@) is Some,
    ensures
        r == (if value@ == word(*catalog, "true"@) {
            BoolFilter::Yes
        } else if value@ == word(*catalog, "false"@) {
            BoolFilter::No
        } else {
            BoolFilter::Unparsable
        }),
{
    if is_word(value, catalog, "true") {
        BoolFilter::Yes
    } else if is_word(value, catalog, "false") {
        BoolFilter::No
    } else {
        BoolFilter::Unparsable
    }
}

/// The message ids that name the flag filters.
pub open spec fn flag_filter_ids_known(catalog: MessageCatalog) -> bool {
    &&& catalog.lookup("filter-valid"@) is Some
    &&& catalog.lookup("filter-invalid"@) is Some
    &&& catalog.lookup("filter-fresh"@) is Some
    &&& catalog.lookup("filter-expired"@) is Some
    &&& catalog.lookup("filter-current"@) is Some
    &&& catalog.lookup("filter-outdated"@) is Some
    &&& catalog.lookup("filter-missing"@) is Some
}

/// The log carries a flag whose filter name is `value`: the translations
/// of `filter-valid`, `filter-invalid`, `filter-fresh`, `filter-expired`,
/// `filter-current`, `filter-outdated` and `filter-missing` name the flags
/// `Valid`, `Invalid`, `Fresh`, `Expired`, `Current`, `Outdated` and
/// `MissingBinary`.
pub open spec fn flag_filter_passes(catalog: MessageCatalog, value: Seq<char>, flags: Seq<IOTraceLogFlag>) -> bool {
    ||| has_flag(flags, IOTraceLogFlag::Valid) && value == word(catalog, "filter-valid"@)
    ||| has_flag(flags, IOTraceLogFlag::Invalid) && value == word(catalog, "filter-invalid"@)
    ||| has_flag(flags, IOTraceLogFlag::Fresh) && value == word(catalog, "filter-fresh"@)
    ||| has_flag(flags, IOTraceLogFlag::Expired) && value == word(catalog, "filter-expired"@)
    ||| has_flag(flags, IOTraceLogFlag::Current) && value == word(catalog, "filter-current"@)
    ||| has_flag(flags, IOTraceLogFlag::Outdated) && value == word(catalog, "filter-outdated"@)
    ||| has_flag(flags, IOTraceLogFlag::MissingBinary) && value == word(catalog, "filter-missing"@)
}

/// The translations that name the flag filters are all different.
pub open spec fn flag_filter_words_distinct(catalog: MessageCatalog) -> bool {
    let w = seq![
        word(catalog, "filter-valid"@),
        word(catalog, "filter-invalid"@),
        word(catalog, "filter-fresh"@),
        word(catalog, "filter-expired"@),
        word(catalog, "filter-current"@),
        word(catalog, "filter-outdated"@),
        word(catalog, "filter-missing"@),
    ];
    forall|i: int, j: int| 0 <= i < j < 7 ==> #[trigger] w[i] != #[trigger] w[j]
}

/// Each flag filter passes exactly the logs that carry its flag: the
/// translation of `filter-fresh` selects the fresh logs, that of
/// `filter-expired` the expired ones, and so on, provided the filter names
/// are told apart.
pub proof fn law_flag_filter_selects_its_flag(catalog: MessageCatalog, value: Seq<char>, flags: Seq<IOTraceLogFlag>)
    requires
        flag_filter_words_distinct(catalog),
    ensures
        value == word(catalog, "filter-valid"@) ==> (flag_filter_passes(catalog, value, flags) <==> has_flag(flags, IOTraceLogFlag::Valid)),
        value == word(catalog, "filter-invalid"@) ==> (flag_filter_passes(catalog, value, flags) <==> has_flag(flags, IOTraceLogFlag::Invalid)),
        value == word(catalog, "filter-fresh"@) ==> (flag_filter_passes(catalog, value, flags) <==> has_flag(flags, IOTraceLogFlag::Fresh)),
        value == word(catalog, "filter-expired"@) ==> (flag_filter_passes(catalog, value, flags) <==> has_flag(flags, IOTraceLogFlag::Expired)),
        value == word(catalog, "filter-current"@) ==> (flag_filter_passes(catalog, value, flags) <==> has_flag(flags, IOTraceLogFlag::Current)),
        value == word(catalog, "filter-outdated"@) ==> (flag_filter_passes(catalog, value, flags) <==> has_flag(flags, IOTraceLogFlag::Outdated)),
        value == word(catalog, "filter-missing"@) ==> (flag_filter_passes(catalog, value, flags) <==> has_flag(flags, IOTraceLogFlag::MissingBinary)),
{
    let w = seq![
        word(catalog, "filter-valid"@),
        word(catalog, "filter-invalid"@),
        word(catalog, "filter-fresh"@),
        word(catalog, "filter-expired"@),
        word(catalog, "filter-current"@),
        word(catalog, "filter-outdated"@),
        word(catalog, "filter-missing"@),
    ];
    assert(w[0] != w[1] && w[0] != w[2] && w[0] != w[3] && w[0] != w[4] && w[0] != w[5] && w[0] != w[6]);
    assert(w[1] != w[2] && w[1] != w[3] && w[1] != w[4] && w[1] != w[5] && w[1] != w[6]);
    assert(w[2] != w[3] && w[2] != w[4] && w[2] != w[5] && w[2] != w[6]);
    assert(w[3] != w[4] && w[3] != w[5] && w[3] != w[6]);
    assert(w[4] != w[5] && w[4] != w[6]);
    assert(w[5] != w[6]);
}

/// Filtering by age selects by age: of the logs checked at `now`, the
/// fresh filter passes exactly those at most `IO_TRACE_EXPIRY_DAYS` days
/// old, and the expired filter exactly the older ones; the outdated filter
/// passes exactly the logs whose binary changed after they were created.
pub proof fn law_age_filters_select_by_age(
    catalog: MessageCatalog,
    created: i64,
    now: i64,
    binary_modified: Option<i64>,
)
    requires
        flag_filter_words_distinct(catalog),
    ensures
        ({
            let flags = crate::trace_report::trace_flags_spec(created, now, binary_modified).0;
            &&& flag_filter_passes(catalog, word(catalog, "filter-fresh"@), flags)
                <==> now - created <= crate::constants::IO_TRACE_EXPIRY_DAYS * 86400
            &&& flag_filter_passes(catalog, word(catalog, "filter-expired"@), flags)
                <==> now - created > crate::constants::IO_TRACE_EXPIRY_DAYS * 86400
            &&& flag_filter_passes(catalog, word(catalog, "filter-outdated"@), flags)
                <==> (binary_modified matches Some(m) && m > created)
        }),
{
    let flags = crate::trace_report::trace_flags_spec(created, now, binary_modified).0;
    law_flag_filter_selects_its_flag(catalog, word(catalog, "filter-fresh"@), flags);
    law_flag_filter_selects_its_flag(catalog, word(catalog, "filter-expired"@), flags);
    law_flag_filter_selects_its_flag(catalog, word(catalog, "filter-outdated"@), flags);
    crate::trace_report::law_trace_flags_follow_binary_and_age(created, now, binary_modified);
    assert forall|f: IOTraceLogFlag| has_flag(flags, f) <==> crate::trace_report::holds_flag(flags, f) by {}
}

/// Whether the log with status flags `flags` passes the flag filter
/// `value`; see `flag_filter_passes`.
fn flag_filter_matches(value: &String, flags: &Vec<IOTraceLogFlag>, catalog: &MessageCatalog) -> (r: bool)
    requires
        flag_filter_ids_known(*catalog),
    ensures
        r == flag_filter_passes(*catalog, value@, flags@),
{
    if contains_flag(flags, IOTraceLogFlag::Valid) && is_word(value, catalog, "filter-valid") {
        return true;
    }
    if contains_flag(flags, IOTraceLogFlag::Invalid) && is_word(value, catalog, "filter-invalid") {
        return true;
    }
    if contains_flag(flags, IOTraceLogFlag::Fresh) && is_word(value, catalog, "filter-fresh") {
        return true;
    }
    if contains_flag(flags, IOTraceLogFlag::Expired) && is_word(value, catalog, "filter-expired") {
        return true;
    }
    if contains_flag(flags, IOTraceLogFlag::Current) && is_word(value, catalog, "filter-current") {
        return true;
    }
    if contains_flag(flags, IOTraceLogFlag::Outdated) && is_word(value, catalog, "filter-outdated") {
        return true;
    }
    contains_flag(flags, IOTraceLogFlag::MissingBinary) && is_word(value, catalog, "filter-missing")
}

/// A yes/no filter passes a log with (`present`) or without the property.
pub open spec fn bool_filter_passes(f: Option<BoolFilter>, present: bool) -> bool {
    match f {
        Some(BoolFilter::Yes) => present,
        Some(BoolFilter::No) => !present,
        _ => true,
    }
}

/// All filters pass the log `t`, whose status flags are `flags`: its hash
/// equals the requested one, its executable contains the requested text,
/// the yes/no filters agree, and it carries the requested flag.
pub open spec fn filter_passes(filter: TraceFilter, t: IOTraceLog, flags: Seq<IOTraceLogFlag>, catalog: MessageCatalog) -> bool {
    &&& (filter.hash matches Some(h) ==> t.hash@ == h@)
    &&& (filter.executable matches Some(e) ==> has_substring(t.exe@, e@))
    &&& bool_filter_passes(filter.optimized, t.trace_log_optimized)
    &&& bool_filter_passes(filter.blacklisted, t.blacklisted)
    &&& (filter.flags matches Some(v) ==> flag_filter_passes(catalog, v@, flags))
}

/// Whether all filters pass the log `t` with status flags `flags`.
pub fn filter_matches(filter: &TraceFilter, t: &IOTraceLog, flags: &Vec<IOTraceLogFlag>, catalog: &MessageCatalog) -> (r: bool)
    requires
        flag_filter_ids_known(*catalog),
    ensures
        r == filter_passes(*filter, *t, flags@, *catalog),
{
    match &filter.hash {
        Some(h) => {
            if t.hash != *h {
                return false;
            }
        }
        None => {}
    }
    match &filter.executable {
        Some(e) => {
            if !contains_substring(&t.exe, e) {
                return false;
            }
        }
        None => {}
    }
    match filter.optimized {
        Some(BoolFilter::Yes) => {
            if !t.trace_log_optimized {
                return false;
            }
        }
        Some(BoolFilter::No) => {
            if t.trace_log_optimized {
                return false;
            }
        }
        _ => {}
    }
    match filter.blacklisted {
        Some(BoolFilter::Yes) => {
            if !t.blacklisted {
                return false;
            }
        }
        Some(BoolFilter::No) => {
            if t.blacklisted {
                return false;
            }
        }
        _ => {}
    }
    match &filter.flags {
        Some(v) => flag_filter_matches(v, flags, catalog),
        None => true,
    }
}


/// The field by which a listing is sorted.
#[derive(Debug, Clone, Copy, PartialEq, Eq, Structural)]
pub enum SortField {
    /// No sorting.
    Unsorted,
    Executable,
    Hash,
    Date,
    Numfiles,
    Numioops,
    Iosize,
    Optimized,
    Blacklisted,
}

/// The direction of a sort.
#[derive(Debug, Clone, Copy, PartialEq, Eq, Structural)]
pub enum SortOrder {
    Ascending,
    Descending,
}

/// The message ids that name the sort fields.
pub open spec fn sort_field_ids_known(catalog: MessageCatalog) -> bool {
    &&& catalog.lookup("sort-executable"@) is Some
    &&& catalog.lookup("sort-hash"@) is Some
    &&& catalog.lookup("sort-date"@) is Some
    &&& catalog.lookup("sort-numfiles"@) is Some
    &&& catalog.lookup("sort-numioops"@) is Some
    &&& catalog.lookup("sort-iosize"@) is Some
    &&& catalog.lookup("sort-optimized"@) is Some
    &&& catalog.lookup("sort-blacklisted"@) is Some
}

/// Parse the sort field: unsorted without a value, else the field whose
/// translated name (`sort-executable`, `sort-hash`, ...) the value is, and
/// unsorted for any other value.
pub fn parse_sort_field(value: &Option<String>, catalog: &MessageCatalog) -> (r: SortField)
    requires
        sort_field_ids_known(*catalog),
    ensures
        r == match *value {
            None => SortField::Unsorted,
            Some(v) => if v@ == word(*catalog, "sort-executable"@) {
                SortField::Executable
            } else if v@ == word(*catalog, "sort-hash"@) {
                SortField::Hash
            } else if v@ == word(*catalog, "sort-date"@) {
                SortField::Date
            } else if v@ == word(*catalog, "sort-numfiles"@) {
                SortField::Numfiles
            } else if v@ == word(*catalog, "sort-numioops"@) {
                SortField::Numioops
            } else if v@ == word(*catalog, "sort-iosize"@) {
                SortField::Iosize
            } else if v@ == word(*catalog, "sort-optimized"@) {
                SortField::Optimized
            } else if v@ == word(*catalog, "sort-blacklisted"@) {
                SortField::Blacklisted
            } else {
                SortField::Unsorted
            },
        },
{
    match value {
        None => SortField::Unsorted,
        Some(v) => {
            if is_word(v, catalog, "sort-executable") {
                SortField::Executable
            } else if is_word(v, catalog, "sort-hash") {
                SortField::Hash
            } else if is_word(v, catalog, "sort-date") {
                SortField::Date
            } else if is_word(v, catalog, "sort-numfiles") {
                SortField::Numfiles
            } else if is_word(v, catalog, "sort-numioops") {
                SortField::Numioops
            } else if is_word(v, catalog, "sort-iosize") {
                SortField::Iosize
            } else if is_word(v, catalog, "sort-optimized") {
                SortField::Optimized
            } else if is_word(v, catalog, "sort-blacklisted") {
                SortField::Blacklisted
            } else {
                SortField::Unsorted
            }
        }
    }
}

/// The message ids that name the sort orders.
pub open spec fn sort_order_ids_known(catalog: MessageCatalog) -> bool {
    &&& catalog.lookup("sort-asc"@) is Some
    &&& catalog.lookup("sort-ascending"@) is Some
    &&& catalog.lookup("sort-desc"@) is Some
    &&& catalog.lookup("sort-descending"@) is Some
}

/// Parse the sort order: descending when the value is the translation of
/// `sort-desc` or `sort-descending` (and not of an ascending word), else
/// ascending.
pub fn parse_sort_order(value: &Option<String>, catalog: &MessageCatalog) -> (r: SortOrder)
    requires
        sort_order_ids_known(*catalog),
    ensures
        r == match *value {
            None => SortOrder::Ascending,
            Some(v) => if v@ == word(*catalog, "sort-asc"@) || v@ == word(*catalog, "sort-ascending"@) {
                SortOrder::Ascending
            } else if v@ == word(*catalog, "sort-desc"@) || v@ == word(*catalog, "sort-descending"@) {
                SortOrder::Descending
            } else {
                SortOrder::Ascending
            },
        },
{
    match value {
        None => SortOrder::Ascending,
        Some(v) => {
            if is_word(v, catalog, "sort-asc") {
                SortOrder::Ascending
            } else if is_word(v, catalog, "sort-ascending") {
                SortOrder::Ascending
            } else if is_word(v, catalog, "sort-desc") {
                SortOrder::Descending
            } else if is_word(v, catalog, "sort-descending") {
                SortOrder::Descending
            } else {
                SortOrder::Ascending
            }
        }
    }
}

/// The number of a boolean: `false` sorts before `true`.
pub open spec fn bool_key(b: bool) -> u64 {
    if b { 1 } else { 0 }
}

/// The sort key of a log for a field; keys are compared lexicographically.
/// Dates are ordered by seconds (shifted to be unsigned) and then by
/// nanoseconds; texts by their characters; paths component by component.
pub open spec fn trace_key(t: IOTraceLog, field: SortField) -> Seq<u64> {
    match field {
        SortField::Unsorted => Seq::empty(),
        SortField::Executable => path_key(t.exe@),
        SortField::Hash => t.hash@.map_values(|c: char| crate::path_order::char_key(c)),
        SortField::Date => seq![(t.created_at.secs as int + 0x8000_0000_0000_0000) as u64, t.created_at.nanos as u64],
        SortField::Numfiles => seq![t.file_map.entries@.len() as u64],
        SortField::Numioops => seq![t.trace_log@.len() as u64],
        SortField::Iosize => seq![t.accumulated_size],
        SortField::Optimized => seq![bool_key(t.trace_log_optimized)],
        SortField::Blacklisted => seq![bool_key(t.blacklisted)],
    }
}

/// The key of the characters of `s`.
fn text_key(s: &String) -> (k: Vec<u64>)
    ensures
        k@ == s@.map_values(|c: char| crate::path_order::char_key(c)),
{
    let st = s.as_str();
    let n = st.unicode_len();
    let mut k: Vec<u64> = Vec::new();
    let mut i: usize = 0;
    while i < n
        invariant
            n == s@.len(),
            st@ == s@,
            i <= n,
            k@ == s@.subrange(0, i as int).map_values(|c: char| crate::path_order::char_key(c)),
        decreases n - i,
    {
        let c = st.get_char(i);
        k.push(c as u32 as u64 + 1);
        proof {
            assert(s@.subrange(0, i + 1).map_values(|c: char| crate::path_order::char_key(c)) =~= s@.subrange(0, i as int).map_values(|c: char| crate::path_order::char_key(c)).push(crate::path_order::char_key(c)));
        }
        i = i + 1;
    }
    proof {
        assert(s@.subrange(0, n as int) =~= s@);
    }
    k
}

/// The sort key of a log for a field; see `trace_key`.
pub fn trace_sort_key(t: &IOTraceLog, field: SortField) -> (k: Vec<u64>)
    ensures
        k@ == trace_key(*t, field),
{
    let mut k: Vec<u64> = Vec::new();
    match field {
        SortField::Unsorted => {}
        SortField::Executable => {
            k = path_sort_key(&t.exe);
        }
        SortField::Hash => {
            k = text_key(&t.hash);
        }
        SortField::Date => {
            let shifted: u64 = if t.created_at.secs >= 0 {
                (t.created_at.secs as u64) + 0x8000_0000_0000_0000u64
            } else {
                ((t.created_at.secs + 1) + 0x7fff_ffff_ffff_ffffi64) as u64
            };
            assert(shifted as int == t.created_at.secs as int + 0x8000_0000_0000_0000);
            k.push(shifted);
            k.push(t.created_at.nanos as u64);
        }
        SortField::Numfiles => {
            k.push(t.file_map.entries.len() as u64);
        }
        SortField::Numioops => {
            k.push(t.trace_log.len() as u64);
        }
        SortField::Iosize => {
            k.push(t.accumulated_size);
        }
        SortField::Optimized => {
            k.push(if t.trace_log_optimized { 1 } else { 0 });
        }
        SortField::Blacklisted => {
            k.push(if t.blacklisted { 1 } else { 0 });
        }
    }
    proof {
        match field {
            SortField::Date => {
                assert(k@ =~= trace_key(*t, field));
            }
            SortField::Unsorted => {
                assert(k@ =~= trace_key(*t, field));
            }
            SortField::Numfiles | SortField::Numioops | SortField::Iosize | SortField::Optimized | SortField::Blacklisted => {
                assert(k@ =~= trace_key(*t, field));
            }
            _ => {}
        }
    }
    k
}

/// Logs that hold the same data have the same sort keys.
pub proof fn lemma_same_log_key(a: IOTraceLog, b: IOTraceLog, field: SortField)
    requires
        same_log(a, b),
    ensures
        trace_key(a, field) == trace_key(b, field),
{
}

/// Sorting by a count, a size, a date or a yes/no field orders the logs by
/// the value of that field: a log's key comes first exactly when it has no
/// more distinct files (`Numfiles`), no more I/O operations (`Numioops`), no
/// larger I/O size (`Iosize`), an earlier or equal creation time (`Date`),
/// and, for `Optimized` and `Blacklisted`, when the first log has the
/// property only if the second has it too. (A vector never holds more than
/// `usize::MAX` elements.)
pub proof fn law_sort_key_orders_by_field(a: IOTraceLog, b: IOTraceLog)
    requires
        a.file_map.entries@.len() <= usize::MAX,
        b.file_map.entries@.len() <= usize::MAX,
        a.trace_log@.len() <= usize::MAX,
        b.trace_log@.len() <= usize::MAX,
    ensures
        lex_le(trace_key(a, SortField::Numfiles), trace_key(b, SortField::Numfiles))
            <==> a.file_map.entries@.len() <= b.file_map.entries@.len(),
        lex_le(trace_key(a, SortField::Numioops), trace_key(b, SortField::Numioops))
            <==> a.trace_log@.len() <= b.trace_log@.len(),
        lex_le(trace_key(a, SortField::Iosize), trace_key(b, SortField::Iosize))
            <==> a.accumulated_size <= b.accumulated_size,
        lex_le(trace_key(a, SortField::Date), trace_key(b, SortField::Date))
            <==> (a.created_at.secs < b.created_at.secs
                || (a.created_at.secs == b.created_at.secs && a.created_at.nanos <= b.created_at.nanos)),
        lex_le(trace_key(a, SortField::Optimized), trace_key(b, SortField::Optimized))
            <==> (a.trace_log_optimized ==> b.trace_log_optimized),
        lex_le(trace_key(a, SortField::Blacklisted), trace_key(b, SortField::Blacklisted))
            <==> (a.blacklisted ==> b.blacklisted),
{
    lemma_lex_single(a.file_map.entries@.len() as u64, b.file_map.entries@.len() as u64);
    lemma_lex_single(a.trace_log@.len() as u64, b.trace_log@.len() as u64);
    lemma_lex_single(a.accumulated_size, b.accumulated_size);
    lemma_lex_single(bool_key(a.trace_log_optimized), bool_key(b.trace_log_optimized));
    lemma_lex_single(bool_key(a.blacklisted), bool_key(b.blacklisted));
    let ka = trace_key(a, SortField::Date);
    let kb = trace_key(b, SortField::Date);
    assert(ka.drop_first() =~= seq![a.created_at.nanos as u64]);
    assert(kb.drop_first() =~= seq![b.created_at.nanos as u64]);
    lemma_lex_single(a.created_at.nanos as u64, b.created_at.nanos as u64);
}

/// A one-element key compares as its number.
proof fn lemma_lex_single(x: u64, y: u64)
    ensures
        lex_le(seq![x], seq![y]) <==> x <= y,
{
    assert(seq![x].drop_first() =~= Seq::<u64>::empty());
    assert(seq![y].drop_first() =~= Seq::<u64>::empty());
    assert(lex_le(Seq::<u64>::empty(), Seq::<u64>::empty()));
}

/// A listing sorted by the number of distinct files (ascending, as
/// `sort_traces` returns it) lists the logs with fewer distinct files
/// first, whatever their numbers of I/O operations.
pub proof fn law_sorted_by_numfiles(r: Seq<(IOTraceLog, String)>)
    requires
        forall|i: int| 0 <= i < r.len() ==> #[trigger] r[i].0.file_map.entries@.len() <= usize::MAX && r[i].0.trace_log@.len() <= usize::MAX,
        forall|i: int, j: int| 0 <= i < j < r.len() ==> lex_le(trace_key(r[i].0, SortField::Numfiles), trace_key(r[j].0, SortField::Numfiles)),
    ensures
        forall|i: int, j: int| 0 <= i < j < r.len() ==> r[i].0.file_map.entries@.len() <= r[j].0.file_map.entries@.len(),
{
    assert forall|i: int, j: int| 0 <= i < j < r.len() implies r[i].0.file_map.entries@.len() <= r[j].0.file_map.entries@.len() by {
        law_sort_key_orders_by_field(r[i].0, r[j].0);
    }
}

/// The positions `0..n` in order.
pub open spec fn identity_order(n: nat) -> Seq<usize> {
    Seq::new(n, |i: int| i as usize)
}

/// Logs of equal key keep the relative order they had before sorting:
/// `perm` tells where each listed log came from.
pub open spec fn stable_arrangement(r: Seq<(IOTraceLog, String)>, perm: Seq<usize>, field: SortField) -> bool {
    forall|i: int, j: int| 0 <= i < j < r.len() && lex_le(trace_key(r[i].0, field), trace_key(r[j].0, field))
        && lex_le(trace_key(r[j].0, field), trace_key(r[i].0, field)) ==> #[trigger] perm[i] < #[trigger] perm[j]
}

/// `r` lists the logs of `traces` in the order `order`.
pub open spec fn arranged(r: Seq<(IOTraceLog, String)>, traces: Seq<(IOTraceLog, String)>, order: Seq<usize>) -> bool {
    &&& r.len() == order.len()
    &&& forall|i: int| 0 <= i < r.len() ==> same_log(#[trigger] r[i].0, traces[order[i] as int].0) && r[i].1@ == traces[order[i] as int].1@
}

/// Sort the listed logs (each with the path of its file) by `field`, in
/// the direction `order`. With no sort field the listing keeps its order.
pub fn sort_traces(traces: &Vec<(IOTraceLog, String)>, field: SortField, order: SortOrder) -> (r: Vec<(IOTraceLog, String)>)
    ensures
        exists|perm: Seq<usize>| is_permutation(perm, traces@.len()) && arranged(r@, traces@, perm)
            && (field == SortField::Unsorted ==> perm == identity_order(traces@.len()))
            && stable_arrangement(r@, perm, field),
        field != SortField::Unsorted ==> forall|i: int, j: int| 0 <= i < j < r@.len() ==> if order == SortOrder::Descending {
            lex_le(trace_key(r@[j].0, field), trace_key(r@[i].0, field))
        } else {
            lex_le(trace_key(r@[i].0, field), trace_key(r@[j].0, field))
        },
{
    let mut keys: Vec<Vec<u64>> = Vec::new();
    let mut i: usize = 0;
    while i < traces.len()
        invariant
            i <= traces@.len(),
            keys@.len() == i,
            forall|j: int| 0 <= j < i ==> (#[trigger] keys@[j])@ == trace_key(traces@[j].0, field),
        decreases traces@.len() - i,
    {
        keys.push(trace_sort_key(&traces[i].0, field));
        i = i + 1;
    }
    let perm: Vec<usize> = if field == SortField::Unsorted {
        let mut p: Vec<usize> = Vec::new();
        let mut k: usize = 0;
        while k < traces.len()
            invariant
                k <= traces@.len(),
                p@ == identity_order(k as nat),
            decreases traces@.len() - k,
        {
            p.push(k);
            proof {
                assert(p@ =~= identity_order((k + 1) as nat));
            }
            k = k + 1;
        }
        p
    } else {
        sort_order_by_keys(&keys, order == SortOrder::Descending)
    };
    let mut r: Vec<(IOTraceLog, String)> = Vec::new();
    let mut m: usize = 0;
    while m < perm.len()
        invariant
            m <= perm@.len(),
            perm@.len() == traces@.len(),
            forall|q: int| 0 <= q < perm@.len() ==> #[trigger] perm@[q] < traces@.len(),
            r@.len() == m,
            forall|q: int| 0 <= q < m ==> same_log(#[trigger] r@[q].0, traces@[perm@[q] as int].0) && r@[q].1@ == traces@[perm@[q] as int].1@,
        decreases perm@.len() - m,
    {
        let idx = perm[m];
        let item = (traces[idx].0.duplicate(), traces[idx].1.clone());
        r.push(item);
        m = m + 1;
    }
    proof {
        let ps = perm@;
        assert(arranged(r@, traces@, ps));
        if field == SortField::Unsorted {
            assert(is_permutation(ps, traces@.len()));
            assert forall|a: int, b: int| 0 <= a < b < r@.len() && lex_le(trace_key(r@[a].0, field), trace_key(r@[b].0, field))
                && lex_le(trace_key(r@[b].0, field), trace_key(r@[a].0, field)) implies #[trigger] ps[a] < #[trigger] ps[b] by {
                assert(ps[a] == a as usize);
                assert(ps[b] == b as usize);
            }
        } else {
            assert forall|a: int, b: int| 0 <= a < b < r@.len() && lex_le(trace_key(r@[a].0, field), trace_key(r@[b].0, field))
                && lex_le(trace_key(r@[b].0, field), trace_key(r@[a].0, field)) implies #[trigger] ps[a] < #[trigger] ps[b] by {
                assert(keys@[ps[a] as int]@ == trace_key(traces@[ps[a] as int].0, field));
                assert(keys@[ps[b] as int]@ == trace_key(traces@[ps[b] as int].0, field));
                lemma_same_log_key(r@[a].0, traces@[ps[a] as int].0, field);
                lemma_same_log_key(r@[b].0, traces@[ps[b] as int].0, field);
                assert(stable_by_keys(keys@, ps));
            }
            assert forall|a: int, b: int| 0 <= a < b < r@.len() implies (if order == SortOrder::Descending {
                lex_le(trace_key(r@[b].0, field), trace_key(r@[a].0, field))
            } else {
                lex_le(trace_key(r@[a].0, field), trace_key(r@[b].0, field))
            }) by {
                assert(keys@[ps[a] as int]@ == trace_key(traces@[ps[a] as int].0, field));
                assert(keys@[ps[b] as int]@ == trace_key(traces@[ps[b] as int].0, field));
                lemma_same_log_key(r@[a].0, traces@[ps[a] as int].0, field);
                lemma_same_log_key(r@[b].0, traces@[ps[b] as int].0, field);
                assert(ordered_by_keys(keys@, ps, order == SortOrder::Descending));
            }
        }
    }
    r
}

/// An I/O trace log file found in the trace directory: its path, the log
/// if the file could be read, and the log's status flags.
#[derive(Debug)]
pub struct TraceCandidate {
    pub path: String,
    pub log: Option<IOTraceLog>,
    pub flags: Vec<IOTraceLogFlag>,
}

/// The readable candidates that pass the filter, with their paths, in the
/// order in which they were found.
pub open spec fn selected(cands: Seq<TraceCandidate>, filter: TraceFilter, catalog: MessageCatalog) -> Seq<(IOTraceLog, String)>
    decreases cands.len(),
{
    if cands.len() == 0 {
        Seq::empty()
    } else {
        let rest = selected(cands.drop_last(), filter, catalog);
        let c = cands.last();
        match c.log {
            Some(t) => if filter_passes(filter, t, c.flags@, catalog) { rest.push((t, c.path)) } else { rest },
            None => rest,
        }
    }
}

/// How many candidates could not be read.
pub open spec fn unreadable(cands: Seq<TraceCandidate>) -> nat
    decreases cands.len(),
{
    if cands.len() == 0 {
        0
    } else {
        unreadable(cands.drop_last()) + (if cands.last().log is None { 1nat } else { 0nat })
    }
}

proof fn lemma_selection_bounds(cands: Seq<TraceCandidate>, filter: TraceFilter, catalog: MessageCatalog)
    ensures
        selected(cands, filter, catalog).len() + unreadable(cands) <= cands.len(),
    decreases cands.len(),
{
    if cands.len() > 0 {
        lemma_selection_bounds(cands.drop_last(), filter, catalog);
    }
}

/// The result of listing the trace directory: the selected logs with their
/// paths, the number of files examined, the number that passed the filter,
/// and the number that could not be read.
#[derive(Debug)]
pub struct TraceSelection {
    pub traces: Vec<(IOTraceLog, String)>,
    pub total: usize,
    pub matching: usize,
    pub errors: usize,
}

/// Select the readable candidates that pass the filter, then sort them by
/// `field` in the direction `order` (with no sort field they keep the order
/// in which they were found).
pub fn get_io_traces_filtered_and_sorted(
    candidates: Vec<TraceCandidate>,
    filter: &TraceFilter,
    catalog: &MessageCatalog,
    field: SortField,
    order: SortOrder,
) -> (r: TraceSelection)
    requires
        flag_filter_ids_known(*catalog),
    ensures
        r.total == candidates@.len(),
        r.matching == selected(candidates@, *filter, *catalog).len(),
        r.errors == unreadable(candidates@),
        exists|perm: Seq<usize>| is_permutation(perm, selected(candidates@, *filter, *catalog).len())
            && arranged(r.traces@, selected(candidates@, *filter, *catalog), perm)
            && (field == SortField::Unsorted ==> perm == identity_order(r.traces@.len()))
            && stable_arrangement(r.traces@, perm, field),
        field != SortField::Unsorted ==> forall|i: int, j: int| 0 <= i < j < r.traces@.len() ==> if order == SortOrder::Descending {
            lex_le(trace_key(r.traces@[j].0, field), trace_key(r.traces@[i].0, field))
        } else {
            lex_le(trace_key(r.traces@[i].0, field), trace_key(r.traces@[j].0, field))
        },
{
    let ghost all = candidates@;
    let total = candidates.len();
    let mut candidates = candidates;
    let mut picked: Vec<(IOTraceLog, String)> = Vec::new();
    let mut matching: usize = 0;
    let mut errors: usize = 0;
    let mut i: usize = 0;
    proof {
        assert(all.skip(0) =~= all);
        assert(all.subrange(0, 0) =~= Seq::<TraceCandidate>::empty());
    }
    while i < total
        invariant
            total == all.len(),
            i <= total,
            candidates@ == all.skip(i as int),
            flag_filter_ids_known(*catalog),
            picked@ == selected(all.subrange(0, i as int), *filter, *catalog),
            matching == picked@.len(),
            errors == unreadable(all.subrange(0, i as int)),
        decreases total - i,
    {
        let c = candidates.remove(0);
        proof {
            assert(all.skip(i as int)[0] == all[i as int]);
            assert(all.skip(i as int).remove(0) =~= all.skip(i + 1));
            assert(all.subrange(0, i + 1).drop_last() =~= all.subrange(0, i as int));
            assert(all.subrange(0, i + 1).last() == all[i as int]);
            lemma_selection_bounds(all.subrange(0, i as int), *filter, *catalog);
        }
        let TraceCandidate { path, log, flags } = c;
        match log {
            Some(t) => {
                if filter_matches(filter, &t, &flags, catalog) {
                    picked.push((t, path));
                    matching = matching + 1;
                }
            },
            None => {
                errors = errors + 1;
            },
        }
        i = i + 1;
    }
    proof {
        assert(all.subrange(0, total as int) =~= all);
    }
    let traces = sort_traces(&picked, field, order);
    proof {
        let perm = choose|perm: Seq<usize>| is_permutation(perm, picked@.len()) && arranged(traces@, picked@, perm)
            && (field == SortField::Unsorted ==> perm == identity_order(picked@.len()))
            && stable_arrangement(traces@, perm, field);
        assert(traces@.len() == picked@.len());
        assert(exists|q: Seq<usize>| is_permutation(q, selected(all, *filter, *catalog).len())
            && arranged(traces@, selected(all, *filter, *catalog), q)
            && (field == SortField::Unsorted ==> q == identity_order(traces@.len()))
            && stable_arrangement(traces@, q, field));
    }
    let r = TraceSelection { traces, total, matching, errors };
    assert(r.traces@ == traces@);
    r
}

} // verus!
