//! The histogram of the most often executed programs, from which offline
//! prefetching picks the programs whose files it caches first.

use vstd::prelude::*;
use vstd::seq_lib::{to_multiset_build, to_multiset_insert};
use crate::counts::{CountMap, clone_entry, keys_distinct, lemma_assoc_view};
use crate::hashing::{hash_program, program_hash};

verus! {

/// `s` is ordered by count, the largest first.
pub open spec fn sorted_by_count_desc(s: Seq<(String, usize)>) -> bool {
    forall|i: int, j: int| 0 <= i < j < s.len() ==> #[trigger] s[i].1 >= #[trigger] s[j].1
}

/// What the hot applications hook does on an internal event.
#[derive(Debug, Clone, Copy, PartialEq, Eq, Structural)]
pub enum HotAppsAction {
    /// Load the histogram from the state directory.
    LoadState,
    /// Save the histogram to the state directory.
    SaveState,
    /// Prefetch the files of the most often executed programs.
    PrefetchData,
    /// Nothing to do.
    Nothing,
}

/// The histogram of executed programs, keyed by the programs' hashes.
#[derive(Debug, Clone)]
pub struct HotApplications {
    pub app_histogram: CountMap,
}

/// Sort histogram entries by count, the largest first.
pub fn sort_by_count_desc(entries: &Vec<(String, usize)>) -> (r: Vec<(String, usize)>)
    ensures
        sorted_by_count_desc(r@),
        r@.to_multiset() == entries@.to_multiset(),
        r@.len() == entries@.len(),
{
    let mut r: Vec<(String, usize)> = Vec::new();
    let mut i: usize = 0;
    proof {
        assert(entries@.take(0) =~= Seq::<(String, usize)>::empty());
    }
    while i < entries.len()
        invariant
            i <= entries@.len(),
            sorted_by_count_desc(r@),
            r@.to_multiset() == entries@.take(i as int).to_multiset(),
            r@.len() == i,
        decreases entries@.len() - i,
    {
        let x = clone_entry(&entries[i]);
        let mut p: usize = 0;
        while p < r.len() && r[p].1 >= x.1
            invariant
                p <= r@.len(),
                forall|k: int| 0 <= k < p ==> #[trigger] r@[k].1 >= x.1,
            decreases r@.len() - p,
        {
            p = p + 1;
        }
        let ghost before = r@;
        r.insert(p, clone_entry(&x));
        proof {
            assert(before.insert(p as int, x) == r@);
            to_multiset_insert(before, p as int, x);
            assert(entries@.take(i + 1) =~= entries@.take(i as int).push(entries@[i as int]));
            to_multiset_build(entries@.take(i as int), entries@[i as int]);
            assert forall|a: int, b: int| 0 <= a < b < r@.len() implies #[trigger] r@[a].1 >= #[trigger] r@[b].1 by {
                if a < p && b < p {
                    assert(before[a].1 >= before[b].1);
                } else if a < p && b == p {
                } else if a < p {
                    assert(before[a].1 >= before[b - 1].1);
                } else if a == p {
                    // every later element came after position p, whose count was below x's
                    assert(before[p as int].1 < x.1);
                    assert(before[p as int].1 >= before[b - 1].1 || p as int == b - 1);
                } else {
                    assert(before[a - 1].1 >= before[b - 1].1);
                }
            }
        }
        i = i + 1;
    }
    proof {
        assert(entries@.take(entries@.len() as int) =~= entries@);
    }
    r
}

impl HotApplications {
    /// An empty histogram.
    pub fn new() -> (h: HotApplications)
        ensures
            h.app_histogram.wf(),
            h.app_histogram.view_map() == Map::<Seq<char>, nat>::empty(),
    {
        HotApplications { app_histogram: CountMap::new() }
    }

    /// Whether the program's files are known to be cached already. No
    /// program is considered cached yet.
    pub fn is_exe_cached(&self, _exe_name: &String, _cmdline: &String) -> (r: bool)
        ensures
            !r,
    {
        false
    }

    /// Count one more execution of the program with executable `exe` and
    /// command line `cmdline`.
    pub fn application_executed(&mut self, exe: &String, cmdline: &String)
        requires
            old(self).app_histogram.wf(),
            old(self).app_histogram.view_map().dom().contains(program_hash(exe@, cmdline@))
                ==> old(self).app_histogram.view_map()[program_hash(exe@, cmdline@)] < usize::MAX,
        ensures
            final(self).app_histogram.wf(),
            final(self).app_histogram.view_map() == old(self).app_histogram.view_map().insert(
                program_hash(exe@, cmdline@),
                if old(self).app_histogram.view_map().dom().contains(program_hash(exe@, cmdline@)) {
                    old(self).app_histogram.view_map()[program_hash(exe@, cmdline@)] + 1
                } else {
                    1
                },
            ),
    {
        let key = hash_program(exe, cmdline);
        self.app_histogram.increment(key);
    }

    /// The histogram's entries, the most often executed program first; the
    /// order in which offline prefetching visits them.
    pub fn apps_by_count(&self) -> (r: Vec<(String, usize)>)
        ensures
            sorted_by_count_desc(r@),
            r@.to_multiset() == self.app_histogram.entries@.to_multiset(),
            r@.len() == self.app_histogram.entries@.len(),
    {
        sort_by_count_desc(&self.app_histogram.entries)
    }

    /// The entries to list: all of them sorted by count, or only the first
    /// twenty of that order, the most often executed programs.
    pub fn top_apps(&self, show_all: bool) -> (r: Vec<(String, usize)>)
        ensures
            exists|full: Seq<(String, usize)>| #[trigger] sorted_by_count_desc(full)
                && full.to_multiset() == self.app_histogram.entries@.to_multiset()
                && r@ == full.take(r@.len() as int),
            sorted_by_count_desc(r@),
            r@.len() == (if show_all || self.app_histogram.entries@.len() <= 20 {
                self.app_histogram.entries@.len()
            } else {
                20
            }),
            forall|i: int| 0 <= i < r@.len() ==> self.app_histogram.entries@.contains(#[trigger] r@[i]),
    {
        let all = self.apps_by_count();
        proof {
            assert forall|i: int| 0 <= i < all@.len() implies self.app_histogram.entries@.contains(#[trigger] all@[i]) by {
                vstd::seq_lib::to_multiset_contains(all@, all@[i]);
                vstd::seq_lib::to_multiset_contains(self.app_histogram.entries@, all@[i]);
                assert(all@.contains(all@[i]));
            }
        }
        if show_all || all.len() <= 20 {
            assert(all@.take(all@.len() as int) =~= all@);
            return all;
        }
        let mut r: Vec<(String, usize)> = Vec::new();
        let mut i: usize = 0;
        while i < 20
            invariant
                i <= 20,
                all@.len() > 20,
                r@ == all@.take(i as int),
            decreases 20 - i,
        {
            r.push(clone_entry(&all[i]));
            proof {
                assert(all@.take(i + 1) =~= all@.take(i as int).push(all@[i as int]));
            }
            i = i + 1;
        }
        assert(sorted_by_count_desc(all@));
        r
    }

    /// The histogram that remains when only the entries whose I/O trace log
    /// could be read are kept: `keep[i]` tells whether the `i`-th entry
    /// stays.
    pub fn optimized(&self, keep: &Vec<bool>) -> (r: HotApplications)
        requires
            self.app_histogram.wf(),
            keep@.len() == self.app_histogram.entries@.len(),
        ensures
            r.app_histogram.wf(),
            forall|i: int| 0 <= i < keep@.len() ==> (#[trigger] r.app_histogram.view_map().dom().contains(
                self.app_histogram.entries@[i].0@,
            ) <==> keep@[i]),
            forall|k: Seq<char>| #[trigger] r.app_histogram.view_map().dom().contains(k) ==> self.app_histogram.view_map().dom().contains(k)
                && r.app_histogram.view_map()[k] == self.app_histogram.view_map()[k],
    {
        let mut out = CountMap::new();
        let mut i: usize = 0;
        proof {
            lemma_assoc_view(self.app_histogram.entries@);
        }
        while i < keep.len()
            invariant
                i <= keep@.len(),
                keep@.len() == self.app_histogram.entries@.len(),
                keys_distinct(self.app_histogram.entries@),
                out.wf(),
                forall|j: int| 0 <= j < i ==> (#[trigger] out.view_map().dom().contains(self.app_histogram.entries@[j].0@) <==> keep@[j]),
                forall|j: int| i <= j < keep@.len() ==> !(#[trigger] out.view_map().dom().contains(self.app_histogram.entries@[j].0@)),
                forall|k: Seq<char>| #[trigger] out.view_map().dom().contains(k) ==> exists|j: int| 0 <= j < i && self.app_histogram.entries@[j].0@ == k && out.view_map()[k] == self.app_histogram.entries@[j].1 as nat,
            decreases keep@.len() - i,
        {
            if keep[i] {
                let e = clone_entry(&self.app_histogram.entries[i]);
                let ghost before = out.view_map();
                out.insert(e.0, e.1);
                proof {
                    let es = self.app_histogram.entries@;
                    assert forall|j: int| 0 <= j < keep@.len() && j != i implies es[j].0@ != es[i as int].0@ by {
                        if j < i {
                            assert(es[j].0@ != es[i as int].0@);
                        } else {
                            assert(es[i as int].0@ != es[j].0@);
                        }
                    }
                    assert forall|k: Seq<char>| #[trigger] out.view_map().dom().contains(k) implies exists|j: int| 0 <= j < i + 1 && es[j].0@ == k && out.view_map()[k] == es[j].1 as nat by {
                        if k == es[i as int].0@ {
                            assert(es[i as int].0@ == k);
                        } else {
                            assert(before.dom().contains(k));
                        }
                    }
                }
            }
            i = i + 1;
        }
        proof {
            let es = self.app_histogram.entries@;
            lemma_assoc_view(es);
            assert forall|k: Seq<char>| #[trigger] out.view_map().dom().contains(k) implies self.app_histogram.view_map().dom().contains(k)
                && out.view_map()[k] == self.app_histogram.view_map()[k] by {
                let j = choose|j: int| 0 <= j < i && es[j].0@ == k && out.view_map()[k] == es[j].1 as nat;
                assert(self.app_histogram.view_map()[es[j].0@] == es[j].1 as nat);
            }
        }
        HotApplications { app_histogram: out }
    }
}

/// Whether offline prefetching may go on: it stops once the share of
/// available memory has fallen to `threshold` percent or below. Without a
/// memory reading it goes on.
pub fn hot_apps_memory_allows_prefetch(available_mem_percentage: Option<u8>, threshold: u8) -> (r: bool)
    ensures
        r == match available_mem_percentage {
            Some(p) => p > threshold,
            None => true,
        },
{
    match available_mem_percentage {
        Some(p) => !(p <= threshold),
        None => true,
    }
}

/// What the hot applications hook does on an internal event: load the
/// histogram at startup, save it at shutdown, and prefetch when asked to
/// prime the caches or when available memory runs low.
pub fn hot_apps_action(event: &crate::events::EventType) -> (a: HotAppsAction)
    ensures
        a == match *event {
            crate::events::EventType::Startup => HotAppsAction::LoadState,
            crate::events::EventType::Shutdown => HotAppsAction::SaveState,
            crate::events::EventType::PrimeCaches => HotAppsAction::PrefetchData,
            crate::events::EventType::AvailableMemoryLowWatermark => HotAppsAction::PrefetchData,
            _ => HotAppsAction::Nothing,
        },
{
    match event {
        crate::events::EventType::Startup => HotAppsAction::LoadState,
        crate::events::EventType::Shutdown => HotAppsAction::SaveState,
        crate::events::EventType::PrimeCaches | crate::events::EventType::AvailableMemoryLowWatermark => HotAppsAction::PrefetchData,
        _ => HotAppsAction::Nothing,
    }
}

/// Whether the listing should suggest optimizing the histogram: more than
/// 25 entries without an I/O trace log in a full listing, more than 5 in the
/// top listing.
pub fn needs_optimization_hint(show_all: bool, errors: usize) -> (r: bool)
    ensures
        r == if show_all { errors > 25 } else { errors > 5 },
{
    if show_all {
        errors > 25
    } else {
        errors > 5
    }
}

} // verus!
