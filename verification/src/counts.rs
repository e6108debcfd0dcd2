//! An association list from names to counters, with the contract stated over
//! its view as a finite map.

use vstd::prelude::*;

verus! {

/// No name occurs twice in `s`.
pub open spec fn keys_distinct(s: Seq<(String, usize)>) -> bool {
    forall|i: int, j: int| 0 <= i < j < s.len() ==> #[trigger] s[i].0@ != #[trigger] s[j].0@
}

/// The map that an association list stands for.
pub open spec fn assoc_view(s: Seq<(String, usize)>) -> Map<Seq<char>, nat>
    decreases s.len(),
{
    if s.len() == 0 {
        Map::empty()
    } else {
        assoc_view(s.drop_last()).insert(s.last().0@, s.last().1 as nat)
    }
}

/// A name occurs in the list exactly when it is in the domain of its view,
/// and (for distinct names) each entry gives the value of its name.
pub proof fn lemma_assoc_view(s: Seq<(String, usize)>)
    ensures
        forall|k: Seq<char>| #[trigger] assoc_view(s).dom().contains(k) <==> exists|i: int| 0 <= i < s.len() && s[i].0@ == k,
        keys_distinct(s) ==> forall|i: int| 0 <= i < s.len() ==> #[trigger] assoc_view(s)[s[i].0@] == s[i].1 as nat,
        assoc_view(s).dom().finite(),
    decreases s.len(),
{
    if s.len() > 0 {
        let p = s.drop_last();
        lemma_assoc_view(p);
        assert forall|k: Seq<char>| #[trigger] assoc_view(s).dom().contains(k) <==> exists|i: int| 0 <= i < s.len() && s[i].0@ == k by {
            if assoc_view(s).dom().contains(k) {
                if k == s.last().0@ {
                    assert(s[s.len() - 1].0@ == k);
                } else {
                    let i = choose|i: int| 0 <= i < p.len() && p[i].0@ == k;
                    assert(s[i].0@ == k);
                }
            }
            if exists|i: int| 0 <= i < s.len() && s[i].0@ == k {
                let i = choose|i: int| 0 <= i < s.len() && s[i].0@ == k;
                if i < s.len() - 1 {
                    assert(p[i].0@ == k);
                }
            }
        }
        if keys_distinct(s) {
            assert(keys_distinct(p)) by {
                assert forall|i: int, j: int| 0 <= i < j < p.len() implies #[trigger] p[i].0@ != #[trigger] p[j].0@ by {
                    assert(s[i].0@ != s[j].0@);
                }
            }
            assert forall|i: int| 0 <= i < s.len() implies #[trigger] assoc_view(s)[s[i].0@] == s[i].1 as nat by {
                if i < s.len() - 1 {
                    assert(s[i].0@ != s[s.len() - 1].0@);
                    assert(p[i] == s[i]);
                }
            }
        }
    }
}

/// Two distinct-keyed lists whose views agree have the same length.
pub proof fn lemma_assoc_len(s: Seq<(String, usize)>)
    requires
        keys_distinct(s),
    ensures
        assoc_view(s).dom().len() == s.len(),
    decreases s.len(),
{
    if s.len() > 0 {
        let p = s.drop_last();
        assert(keys_distinct(p)) by {
            assert forall|i: int, j: int| 0 <= i < j < p.len() implies #[trigger] p[i].0@ != #[trigger] p[j].0@ by {
                assert(s[i].0@ != s[j].0@);
            }
        }
        lemma_assoc_len(p);
        lemma_assoc_view(p);
        if assoc_view(p).dom().contains(s.last().0@) {
            let i = choose|i: int| 0 <= i < p.len() && p[i].0@ == s.last().0@;
            assert(s[i].0@ == s[s.len() - 1].0@);
        }
    }
}

/// The sum of the counters of an association list.
pub open spec fn counts_total(s: Seq<(String, usize)>) -> nat
    decreases s.len(),
{
    if s.len() == 0 {
        0
    } else {
        counts_total(s.drop_last()) + s.last().1 as nat
    }
}

/// Replacing an entry changes the sum by the difference of the counters.
pub proof fn lemma_counts_total_update(s: Seq<(String, usize)>, i: int, e: (String, usize))
    requires
        0 <= i < s.len(),
    ensures
        counts_total(s.update(i, e)) + s[i].1 == counts_total(s) + e.1,
    decreases s.len(),
{
    let t = s.update(i, e);
    if i == s.len() - 1 {
        assert(t.drop_last() =~= s.drop_last());
    } else {
        lemma_counts_total_update(s.drop_last(), i, e);
        assert(t.drop_last() =~= s.drop_last().update(i, e));
    }
}

/// A copy of a name and its counter.
pub fn clone_entry(e: &(String, usize)) -> (r: (String, usize))
    ensures
        r == *e,
{
    (e.0.clone(), e.1)
}

/// A finite map from names to counters, held as a list of distinct names.
#[derive(Debug, Clone)]
pub struct CountMap {
    pub entries: Vec<(String, usize)>,
}

impl CountMap {
    /// The counters, as a map from names to values.
    pub open spec fn view_map(&self) -> Map<Seq<char>, nat> {
        assoc_view(self.entries@)
    }

    /// Well-formedness: no name is held twice.
    pub open spec fn wf(&self) -> bool {
        keys_distinct(self.entries@)
    }

    /// An empty map.
    pub fn new() -> (r: CountMap)
        ensures
            r.wf(),
            r.view_map() == Map::<Seq<char>, nat>::empty(),
            r.entries@.len() == 0,
    {
        CountMap { entries: Vec::new() }
    }

    /// Number of distinct names.
    pub fn len(&self) -> (n: usize)
        requires
            self.wf(),
        ensures
            n as nat == self.view_map().dom().len(),
    {
        proof {
            lemma_assoc_len(self.entries@);
        }
        self.entries.len()
    }

    /// Position of `key` in the list, if it is there.
    pub fn position(&self, key: &String) -> (r: Option<usize>)
        ensures
            match r {
                Some(i) => i < self.entries@.len() && self.entries@[i as int].0@ == key@,
                None => forall|i: int| 0 <= i < self.entries@.len() ==> self.entries@[i].0@ != key@,
            },
            r is None <==> !self.view_map().dom().contains(key@),
    {
        proof {
            lemma_assoc_view(self.entries@);
        }
        let mut i: usize = 0;
        while i < self.entries.len()
            invariant
                i <= self.entries@.len(),
                forall|j: int| 0 <= j < i ==> self.entries@[j].0@ != key@,
            decreases self.entries@.len() - i,
        {
            if self.entries[i].0 == *key {
                proof {
                    lemma_assoc_view(self.entries@);
                    assert(self.entries@[i as int].0@ == key@);
                }
                return Some(i);
            }
            i = i + 1;
        }
        None
    }

    /// The counter of `key`, if it is held.
    pub fn get(&self, key: &String) -> (r: Option<usize>)
        requires
            self.wf(),
        ensures
            match r {
                Some(v) => self.view_map().dom().contains(key@) && self.view_map()[key@] == v as nat,
                None => !self.view_map().dom().contains(key@),
            },
    {
        proof {
            lemma_assoc_view(self.entries@);
        }
        match self.position(key) {
            Some(i) => Some(self.entries[i].1),
            None => None,
        }
    }

    /// Set the counter of `key` to `value`, adding `key` when it is new.
    pub fn insert(&mut self, key: String, value: usize)
        requires
            old(self).wf(),
        ensures
            final(self).wf(),
            final(self).view_map() == old(self).view_map().insert(key@, value as nat),
            counts_total(final(self).entries@) + (if old(self).view_map().dom().contains(key@) {
                old(self).view_map()[key@]
            } else {
                0
            }) == counts_total(old(self).entries@) + value,
    {
        proof {
            lemma_assoc_view(self.entries@);
        }
        let pos = self.position(&key);
        let ghost old_entries = self.entries@;
        match pos {
            Some(i) => {
                self.entries.set(i, (key, value));
            }
            None => {
                self.entries.push((key, value));
            }
        }
        proof {
            let s = self.entries@;
            assert(keys_distinct(s)) by {
                assert forall|a: int, b: int| 0 <= a < b < s.len() implies #[trigger] s[a].0@ != #[trigger] s[b].0@ by {
                    if pos is Some {
                        let i = pos->0 as int;
                        if a != i && b != i {
                            assert(old_entries[a].0@ != old_entries[b].0@);
                        } else if a == i {
                            assert(old_entries[i].0@ != old_entries[b].0@);
                        } else {
                            assert(old_entries[a].0@ != old_entries[i].0@);
                        }
                    } else {
                        if b < old_entries.len() {
                            assert(old_entries[a].0@ != old_entries[b].0@);
                        } else {
                            assert(old_entries[a].0@ != key@);
                        }
                    }
                }
            }
            lemma_assoc_view(s);
            let m = assoc_view(old_entries).insert(key@, value as nat);
            assert forall|k: Seq<char>| #[trigger] assoc_view(s).dom().contains(k) <==> m.dom().contains(k) by {
                if assoc_view(s).dom().contains(k) {
                    let j = choose|j: int| 0 <= j < s.len() && s[j].0@ == k;
                    if k != key@ {
                        assert(old_entries[j].0@ == k);
                    }
                }
                if m.dom().contains(k) && k != key@ {
                    let j = choose|j: int| 0 <= j < old_entries.len() && old_entries[j].0@ == k;
                    assert(s[j].0@ == k);
                }
                if k == key@ {
                    if pos is Some {
                        assert(s[pos->0 as int].0@ == k);
                    } else {
                        assert(s[s.len() - 1].0@ == k);
                    }
                }
            }
            assert forall|k: Seq<char>| #[trigger] m.dom().contains(k) implies assoc_view(s)[k] == m[k] by {
                assert(assoc_view(s).dom().contains(k));
                let j = choose|j: int| 0 <= j < s.len() && s[j].0@ == k;
                if k != key@ {
                    assert(old_entries[j] == s[j]);
                }
            }
            assert(assoc_view(s) =~= m);
            if pos is Some {
                let i = pos->0 as int;
                lemma_assoc_view(old_entries);
                assert(assoc_view(old_entries)[old_entries[i].0@] == old_entries[i].1 as nat);
                lemma_counts_total_update(old_entries, i, (key, value));
                assert(s == old_entries.update(i, (key, value)));
            } else {
                assert(s.drop_last() =~= old_entries);
            }
        }
    }

    /// Add one to the counter of `key`, starting it at one when `key` is new.
    pub fn increment(&mut self, key: String)
        requires
            old(self).wf(),
            old(self).view_map().dom().contains(key@) ==> old(self).view_map()[key@] < usize::MAX,
        ensures
            final(self).wf(),
            final(self).view_map() == old(self).view_map().insert(
                key@,
                if old(self).view_map().dom().contains(key@) { old(self).view_map()[key@] + 1 } else { 1 },
            ),
            counts_total(final(self).entries@) == counts_total(old(self).entries@) + 1,
    {
        let cur = self.get(&key);
        match cur {
            Some(v) => self.insert(key, v + 1),
            None => self.insert(key, 1),
        }
    }
}

} // verus!
