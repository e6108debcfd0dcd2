//! The order of file system paths, component by component, as sort keys.

use vstd::prelude::*;
use vstd::string::StrSliceExecFns;

verus! {

/// The segments of `p` between its slashes, empty ones included.
pub open spec fn split_slash(p: Seq<char>) -> Seq<Seq<char>>
    decreases p.len(),
{
    if p.len() == 0 {
        seq![Seq::<char>::empty()]
    } else {
        let init = split_slash(p.drop_last());
        if p.last() == '/' {
            init.push(Seq::<char>::empty())
        } else {
            init.update(init.len() - 1, init.last().push(p.last()))
        }
    }
}

/// The key of one character: its code plus one, so that a component that
/// ends (marked by 0) sorts before any longer one.
pub open spec fn char_key(c: char) -> u64 {
    ((c as u32) as u64 + 1) as u64
}

/// The key of a segment: empty and `.` segments are no components, `..` is
/// a parent-directory component, any other name a normal component.
pub open spec fn segment_key(seg: Seq<char>) -> Seq<u64> {
    if seg.len() == 0 || seg == seq!['.'] {
        Seq::empty()
    } else if seg == seq!['.', '.'] {
        seq![2u64]
    } else {
        seq![3u64] + seg.map_values(|c: char| char_key(c)) + seq![0u64]
    }
}

/// The keys of the components in `segs`, in order.
pub open spec fn segments_key(segs: Seq<Seq<char>>) -> Seq<u64>
    decreases segs.len(),
{
    if segs.len() == 0 {
        Seq::empty()
    } else {
        segments_key(segs.drop_last()) + segment_key(segs.last())
    }
}

/// The path is absolute.
pub open spec fn rooted(p: Seq<char>) -> bool {
    p.len() > 0 && p[0] == '/'
}

/// A relative path that starts with a `.` component.
pub open spec fn starts_with_cur_dir(p: Seq<char>) -> bool {
    !rooted(p) && p.len() >= 1 && p[0] == '.' && (p.len() == 1 || p[1] == '/')
}

/// The sort key of a path: its components in order, the root directory
/// coded as 0, a leading current directory as 1, a parent directory as 2,
/// and a normal component as 3 followed by its characters and an end mark.
/// Comparing keys lexicographically compares the paths component by
/// component, as paths are ordered.
pub open spec fn path_key(p: Seq<char>) -> Seq<u64> {
    (if rooted(p) {
        seq![0u64]
    } else if starts_with_cur_dir(p) {
        seq![1u64]
    } else {
        Seq::empty()
    }) + segments_key(split_slash(p))
}

proof fn lemma_split_nonempty(p: Seq<char>)
    ensures
        split_slash(p).len() >= 1,
    decreases p.len(),
{
    if p.len() > 0 {
        lemma_split_nonempty(p.drop_last());
    }
}

/// The key of one segment.
fn segment_key_exec(seg: &Vec<char>) -> (k: Vec<u64>)
    ensures
        k@ == segment_key(seg@),
{
    let mut k: Vec<u64> = Vec::new();
    if seg.len() == 0 {
        return k;
    }
    if seg.len() == 1 && seg[0] == '.' {
        assert(seg@ =~= seq!['.']);
        return k;
    }
    if seg.len() == 2 && seg[0] == '.' && seg[1] == '.' {
        assert(seg@ =~= seq!['.', '.']);
        k.push(2);
        assert(k@ =~= seq![2u64]);
        return k;
    }
    proof {
        if seg@ == seq!['.'] {
            assert(seg@[0] == '.');
        }
        if seg@ == seq!['.', '.'] {
            assert(seg@[0] == '.' && seg@[1] == '.');
        }
    }
    k.push(3);
    let mut i: usize = 0;
    while i < seg.len()
        invariant
            i <= seg@.len(),
            k@ == seq![3u64] + seg@.subrange(0, i as int).map_values(|c: char| char_key(c)),
        decreases seg@.len() - i,
    {
        let c = seg[i];
        k.push(c as u32 as u64 + 1);
        proof {
            assert(seg@.subrange(0, i + 1).map_values(|c: char| char_key(c)) =~= seg@.subrange(0, i as int).map_values(|c: char| char_key(c)).push(char_key(c)));
        }
        i = i + 1;
    }
    k.push(0);
    proof {
        assert(seg@.subrange(0, seg@.len() as int) =~= seg@);
        assert(k@ =~= seq![3u64] + seg@.map_values(|c: char| char_key(c)) + seq![0u64]);
    }
    k
}

/// Append `b` to `a`.
fn append_keys(a: &mut Vec<u64>, b: &Vec<u64>)
    ensures
        final(a)@ == old(a)@ + b@,
{
    let mut i: usize = 0;
    while i < b.len()
        invariant
            i <= b@.len(),
            a@ == old(a)@ + b@.subrange(0, i as int),
        decreases b@.len() - i,
    {
        a.push(b[i]);
        proof {
            assert(old(a)@ + b@.subrange(0, i + 1) =~= (old(a)@ + b@.subrange(0, i as int)).push(b@[i as int]));
        }
        i = i + 1;
    }
    proof {
        assert(b@.subrange(0, b@.len() as int) =~= b@);
    }
}

/// The sort key of the path `p`; see `path_key`.
pub fn path_sort_key(p: &String) -> (k: Vec<u64>)
    ensures
        k@ == path_key(p@),
{
    let s = p.as_str();
    let n = s.unicode_len();
    let mut done: Vec<u64> = Vec::new();
    let mut cur: Vec<char> = Vec::new();
    let mut i: usize = 0;
    proof {
        assert(p@.subrange(0, 0) =~= Seq::<char>::empty());
    }
    while i < n
        invariant
            n == p@.len(),
            s@ == p@,
            i <= n,
            split_slash(p@.subrange(0, i as int)).len() >= 1,
            done@ == segments_key(split_slash(p@.subrange(0, i as int)).drop_last()),
            cur@ == split_slash(p@.subrange(0, i as int)).last(),
        decreases n - i,
    {
        let c = s.get_char(i);
        let ghost pre = p@.subrange(0, i as int);
        let ghost next = p@.subrange(0, i + 1);
        proof {
            assert(next.drop_last() =~= pre);
            assert(next.last() == c);
        }
        if c == '/' {
            let kc = segment_key_exec(&cur);
            append_keys(&mut done, &kc);
            cur = Vec::new();
            proof {
                let sp = split_slash(pre);
                assert(split_slash(next) == sp.push(Seq::<char>::empty()));
                assert(split_slash(next).drop_last() =~= sp);
                assert(sp =~= sp.drop_last().push(sp.last()));
                assert(segments_key(sp) == segments_key(sp.drop_last()) + segment_key(sp.last()));
                assert(cur@ =~= Seq::<char>::empty());
            }
        } else {
            cur.push(c);
            proof {
                let sp = split_slash(pre);
                let sn = split_slash(next);
                assert(sn == sp.update(sp.len() - 1, sp.last().push(c)));
                assert(sn.drop_last() =~= sp.drop_last());
            }
        }
        i = i + 1;
    }
    proof {
        assert(p@.subrange(0, n as int) =~= p@);
    }
    let kc = segment_key_exec(&cur);
    append_keys(&mut done, &kc);
    proof {
        let sp = split_slash(p@);
        assert(sp =~= sp.drop_last().push(sp.last()));
        assert(segments_key(sp) == segments_key(sp.drop_last()) + segment_key(sp.last()));
    }
    let mut k: Vec<u64> = Vec::new();
    if n > 0 && s.get_char(0) == '/' {
        k.push(0);
    } else if n >= 1 && s.get_char(0) == '.' && (n == 1 || s.get_char(1) == '/') {
        k.push(1);
    }
    append_keys(&mut k, &done);
    proof {
        if rooted(p@) {
            assert(k@ =~= seq![0u64] + segments_key(split_slash(p@)));
        } else if starts_with_cur_dir(p@) {
            assert(k@ =~= seq![1u64] + segments_key(split_slash(p@)));
        } else {
            assert(k@ =~= Seq::<u64>::empty() + segments_key(split_slash(p@)));
        }
    }
    k
}

} // verus!
