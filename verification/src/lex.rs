//! Lexicographic order on sequences of numbers, and sorting by such keys.

use vstd::prelude::*;

verus! {

/// `a` comes before `b` or equals it in lexicographic order: at the first
/// place where they differ `a` holds the smaller number, or `a` is a prefix
/// of `b`.
pub open spec fn lex_le(a: Seq<u64>, b: Seq<u64>) -> bool
    decreases a.len(),
{
    if a.len() == 0 {
        true
    } else if b.len() == 0 {
        false
    } else if a[0] != b[0] {
        a[0] < b[0]
    } else {
        lex_le(a.drop_first(), b.drop_first())
    }
}

/// Any two sequences are ordered one way or the other.
pub proof fn lemma_lex_total(a: Seq<u64>, b: Seq<u64>)
    ensures
        lex_le(a, b) || lex_le(b, a),
    decreases a.len(),
{
    if a.len() > 0 && b.len() > 0 && a[0] == b[0] {
        lemma_lex_total(a.drop_first(), b.drop_first());
    }
}

/// The order is transitive.
pub proof fn lemma_lex_trans(a: Seq<u64>, b: Seq<u64>, c: Seq<u64>)
    requires
        lex_le(a, b),
        lex_le(b, c),
    ensures
        lex_le(a, c),
    decreases a.len(),
{
    if a.len() > 0 && b.len() > 0 && c.len() > 0 && a[0] == b[0] && b[0] == c[0] {
        lemma_lex_trans(a.drop_first(), b.drop_first(), c.drop_first());
    }
}

/// Compare two keys.
pub fn lex_le_exec(a: &Vec<u64>, b: &Vec<u64>) -> (r: bool)
    ensures
        r == lex_le(a@, b@),
{
    let mut i: usize = 0;
    proof {
        assert(a@.skip(0) =~= a@);
        assert(b@.skip(0) =~= b@);
    }
    while i < a.len() && i < b.len() && a[i] == b[i]
        invariant
            i <= a@.len(),
            i <= b@.len(),
            lex_le(a@, b@) == lex_le(a@.skip(i as int), b@.skip(i as int)),
        decreases a@.len() - i,
    {
        proof {
            let sa = a@.skip(i as int);
            let sb = b@.skip(i as int);
            assert(sa.drop_first() =~= a@.skip(i + 1));
            assert(sb.drop_first() =~= b@.skip(i + 1));
        }
        i = i + 1;
    }
    proof {
        assert(a@.skip(0) =~= a@);
        assert(b@.skip(0) =~= b@);
    }
    if i == a.len() {
        proof {
            assert(a@.skip(i as int).len() == 0);
        }
        true
    } else if i == b.len() {
        false
    } else {
        proof {
            assert(a@.skip(i as int)[0] == a@[i as int]);
            assert(b@.skip(i as int)[0] == b@[i as int]);
        }
        a[i] < b[i]
    }
}

/// Whether a key `x` must come after the key `y`: `x` is strictly greater
/// in ascending order, strictly smaller in descending order.
pub fn must_follow(x: &Vec<u64>, y: &Vec<u64>, descending: bool) -> (r: bool)
    ensures
        r == if descending {
            lex_le(x@, y@) && !lex_le(y@, x@)
        } else {
            lex_le(y@, x@) && !lex_le(x@, y@)
        },
{
    if descending {
        lex_le_exec(x, y) && !lex_le_exec(y, x)
    } else {
        lex_le_exec(y, x) && !lex_le_exec(x, y)
    }
}

/// `order` lists the positions of `keys` so that their keys follow each
/// other in ascending order, or in descending order when `descending`.
pub open spec fn ordered_by_keys(keys: Seq<Vec<u64>>, order: Seq<usize>, descending: bool) -> bool {
    forall|i: int, j: int| 0 <= i < j < order.len() ==> if descending {
        lex_le(keys[order[j] as int]@, keys[order[i] as int]@)
    } else {
        lex_le(keys[order[i] as int]@, keys[order[j] as int]@)
    }
}

/// The positions `0..n`, each once.
pub open spec fn is_permutation(order: Seq<usize>, n: nat) -> bool {
    &&& order.len() == n
    &&& forall|i: int| 0 <= i < order.len() ==> #[trigger] order[i] < n
    &&& forall|i: int, j: int| 0 <= i < j < order.len() ==> #[trigger] order[i] != #[trigger] order[j]
}

/// Positions with equal keys keep their relative order in `order`.
pub open spec fn stable_by_keys(keys: Seq<Vec<u64>>, order: Seq<usize>) -> bool {
    forall|i: int, j: int| 0 <= i < j < order.len() && lex_le(keys[order[i] as int]@, keys[order[j] as int]@)
        && lex_le(keys[order[j] as int]@, keys[order[i] as int]@) ==> #[trigger] order[i] < #[trigger] order[j]
}

/// Positions of `keys` in ascending (or descending) key order; equal keys
/// keep their relative order.
pub fn sort_order_by_keys(keys: &Vec<Vec<u64>>, descending: bool) -> (order: Vec<usize>)
    ensures
        is_permutation(order@, keys@.len()),
        ordered_by_keys(keys@, order@, descending),
        stable_by_keys(keys@, order@),
{
    let mut order: Vec<usize> = Vec::new();
    let mut k: usize = 0;
    while k < keys.len()
        invariant
            k <= keys@.len(),
            order@.len() == k,
            forall|i: int| 0 <= i < order@.len() ==> #[trigger] order@[i] < k,
            forall|i: int, j: int| 0 <= i < j < order@.len() ==> #[trigger] order@[i] != #[trigger] order@[j],
            ordered_by_keys(keys@, order@, descending),
            stable_by_keys(keys@, order@),
        decreases keys@.len() - k,
    {
        // insert position k after every element that must stay before it
        let mut p: usize = order.len();
        let ghost kk = keys@[k as int]@;
        while p > 0 && must_follow(&keys[order[p - 1]], &keys[k], descending)
            invariant
                p <= order@.len(),
                k < keys@.len(),
                kk == keys@[k as int]@,
                forall|i: int| 0 <= i < order@.len() ==> #[trigger] order@[i] < k,
                forall|q: int| p <= q < order@.len() ==> if descending {
                    lex_le(keys@[#[trigger] order@[q] as int]@, kk) && !lex_le(kk, keys@[order@[q] as int]@)
                } else {
                    lex_le(kk, keys@[#[trigger] order@[q] as int]@) && !lex_le(keys@[order@[q] as int]@, kk)
                },
            decreases p,
        {
            p = p - 1;
        }
        proof {
            if p > 0 {
                let kp = keys@[order@[p - 1] as int]@;
                lemma_lex_total(kp, kk);
                assert(if descending { lex_le(kk, kp) } else { lex_le(kp, kk) });
            }
        }
        let ghost before = order@;
        order.insert(p, k);
        proof {
            let s = order@;
            assert(s =~= before.insert(p as int, k));
            assert forall|i: int, j: int| 0 <= i < j < s.len() implies #[trigger] s[i] != #[trigger] s[j] by {
                if i < p && j < p {
                    assert(before[i] != before[j]);
                } else if i < p && j > p {
                    assert(before[i] != before[j - 1]);
                } else if i > p {
                    assert(before[i - 1] != before[j - 1]);
                } else if i == p {
                    assert(before[j - 1] < k);
                } else {
                    assert(before[i] < k);
                }
            }
            assert forall|i: int| 0 <= i < s.len() implies #[trigger] s[i] < k + 1 by {
                if i < p {
                    assert(before[i] < k);
                } else if i > p {
                    assert(before[i - 1] < k);
                }
            }
            assert forall|i: int, j: int| 0 <= i < j < s.len() implies (if descending {
                lex_le(keys@[s[j] as int]@, keys@[s[i] as int]@)
            } else {
                lex_le(keys@[s[i] as int]@, keys@[s[j] as int]@)
            }) by {
                if i < p && j < p {
                    assert(s[i] == before[i] && s[j] == before[j]);
                } else if i > p {
                    assert(s[i] == before[i - 1] && s[j] == before[j - 1]);
                } else if i < p && j > p {
                    assert(s[i] == before[i] && s[j] == before[j - 1]);
                } else if i == p {
                    assert(s[j] == before[j - 1]);
                } else {
                    // j == p: the element at i comes no later than the one at p - 1
                    assert(s[i] == before[i]);
                    let ki = keys@[before[i] as int]@;
                    let kp = keys@[before[p - 1] as int]@;
                    if i < p - 1 {
                        if descending {
                            assert(lex_le(kp, ki));
                            lemma_lex_trans(kk, kp, ki);
                        } else {
                            assert(lex_le(ki, kp));
                            lemma_lex_trans(ki, kp, kk);
                        }
                    }
                }
            }
            assert forall|i: int, j: int| 0 <= i < j < s.len() && lex_le(keys@[s[i] as int]@, keys@[s[j] as int]@)
                && lex_le(keys@[s[j] as int]@, keys@[s[i] as int]@) implies #[trigger] s[i] < #[trigger] s[j] by {
                if i < p && j < p {
                    assert(s[i] == before[i] && s[j] == before[j]);
                } else if i > p {
                    assert(s[i] == before[i - 1] && s[j] == before[j - 1]);
                } else if i < p && j > p {
                    assert(s[i] == before[i] && s[j] == before[j - 1]);
                } else if i == p {
                    assert(s[j] == before[j - 1]);
                    assert(p <= j - 1);
                } else {
                    assert(s[i] == before[i]);
                    assert(before[i] < k);
                }
            }
        }
        k = k + 1;
    }
    order
}

} // verus!
