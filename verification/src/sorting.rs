//! Stable sorting by a total preorder, as every report ordering in the library needs.
//!
//! `sorted_by_key` is the specification: the stable sort obtained by inserting
//! each element, in input order, after every earlier element that is not
//! ordered after it.  For a total preorder this is the unique stable sorted
//! permutation, which is what `slice::sort_by` returns.
use vstd::prelude::*;

verus! {

/// A total preorder on the items of a report list.
pub trait SortKey: Sized {
    /// `self` may stand before `other`.
    spec fn key_le(self, other: Self) -> bool;

    /// Any two items are comparable.
    proof fn lemma_key_total(a: Self, b: Self)
        ensures
            a.key_le(b) || b.key_le(a),
    ;

    /// The order is transitive.
    proof fn lemma_key_transitive(a: Self, b: Self, c: Self)
        requires
            a.key_le(b),
            b.key_le(c),
        ensures
            a.key_le(c),
    ;

    /// Executable form of `key_le`.
    fn exec_key_le(&self, other: &Self) -> (r: bool)
        ensures
            r == self.key_le(*other),
    ;
}

/// `x` inserted into `s` after every element that is not ordered after it.
pub open spec fn insert_sorted<T: SortKey>(s: Seq<T>, x: T) -> Seq<T>
    decreases s.len(),
{
    if s.len() == 0 {
        seq![x]
    } else if s.last().key_le(x) {
        s.push(x)
    } else {
        insert_sorted(s.drop_last(), x).push(s.last())
    }
}

/// The stable sort of `s`.
pub open spec fn sorted_by_key<T: SortKey>(s: Seq<T>) -> Seq<T>
    decreases s.len(),
{
    if s.len() == 0 {
        s
    } else {
        insert_sorted(sorted_by_key(s.drop_last()), s.last())
    }
}

/// Every element may stand before every later one.
pub open spec fn is_sorted<T: SortKey>(s: Seq<T>) -> bool {
    forall|i: int, j: int| 0 <= i < j < s.len() ==> s[i].key_le(s[j])
}

/// Inserting at the position found by scanning from the end is `insert_sorted`.
proof fn lemma_insert_at<T: SortKey>(s: Seq<T>, x: T, pos: int)
    requires
        0 <= pos <= s.len(),
        forall|k: int| pos <= k < s.len() ==> !s[k].key_le(x),
        pos == 0 || s[pos - 1].key_le(x),
    ensures
        insert_sorted(s, x) == s.insert(pos, x),
    decreases s.len(),
{
    if s.len() == 0 {
        assert(s.insert(pos, x) =~= seq![x]);
    } else if pos == s.len() {
        assert(s.insert(pos, x) =~= s.push(x));
    } else {
        lemma_insert_at(s.drop_last(), x, pos);
        assert(s.drop_last().insert(pos, x).push(s.last()) =~= s.insert(pos, x));
    }
}

/// Sorting yields a sorted list.
pub proof fn lemma_sorted_by_key_is_sorted<T: SortKey>(s: Seq<T>)
    ensures
        is_sorted(sorted_by_key(s)),
        sorted_by_key(s).len() == s.len(),
    decreases s.len(),
{
    if s.len() > 0 {
        lemma_sorted_by_key_is_sorted(s.drop_last());
        lemma_insert_keeps_sorted(sorted_by_key(s.drop_last()), s.last());
    }
}

/// Insertion into a sorted list keeps it sorted.
proof fn lemma_insert_keeps_sorted<T: SortKey>(s: Seq<T>, x: T)
    requires
        is_sorted(s),
    ensures
        is_sorted(insert_sorted(s, x)),
        insert_sorted(s, x).len() == s.len() + 1,
        forall|k: int|
            0 <= k < insert_sorted(s, x).len() ==> #[trigger] insert_sorted(s, x)[k] == x || s.contains(
                insert_sorted(s, x)[k],
            ),
    decreases s.len(),
{
    if s.len() == 0 {
    } else if s.last().key_le(x) {
        let r = s.push(x);
        assert forall|i: int, j: int| 0 <= i < j < r.len() implies r[i].key_le(r[j]) by {
            if j == s.len() {
                if i < s.len() - 1 {
                    T::lemma_key_transitive(s[i], s.last(), x);
                }
            }
        }
        assert forall|k: int| 0 <= k < r.len() implies #[trigger] r[k] == x || s.contains(r[k]) by {
            if k < s.len() {
                assert(s[k] == r[k]);
            }
        }
    } else {
        let d = s.drop_last();
        lemma_insert_keeps_sorted(d, x);
        let m = insert_sorted(d, x);
        let r = m.push(s.last());
        T::lemma_key_total(s.last(), x);
        assert forall|i: int, j: int| 0 <= i < j < r.len() implies r[i].key_le(r[j]) by {
            if j == r.len() - 1 {
                if m[i] == x {
                } else {
                    assert(d.contains(m[i]));
                    let k = choose|k: int| 0 <= k < d.len() && d[k] == m[i];
                    assert(s[k] == d[k]);
                }
            }
        }
        assert forall|k: int| 0 <= k < r.len() implies #[trigger] r[k] == x || s.contains(r[k]) by {
            if k == r.len() - 1 {
                assert(s[s.len() - 1] == r[k]);
            } else if m[k] != x {
                let j = choose|j: int| 0 <= j < d.len() && d[j] == m[k];
                assert(s[j] == d[j]);
            }
        }
    }
}

/// Insertion adds exactly the inserted element.
proof fn lemma_insert_sorted_multiset<T: SortKey>(s: Seq<T>, x: T)
    ensures
        insert_sorted(s, x).to_multiset() == s.to_multiset().insert(x),
    decreases s.len(),
{
    broadcast use vstd::seq_lib::to_multiset_build;
    broadcast use vstd::multiset::group_multiset_axioms;

    if s.len() == 0 {
        assert(seq![x] =~= s.push(x));
    } else if s.last().key_le(x) {
    } else {
        lemma_insert_sorted_multiset(s.drop_last(), x);
        assert(s.drop_last().push(s.last()) =~= s);
        assert(insert_sorted(s.drop_last(), x).push(s.last()).to_multiset() =~= s.to_multiset().insert(x));
    }
}

/// Sorting keeps exactly the same elements.
pub proof fn lemma_sorted_by_key_permutes<T: SortKey>(s: Seq<T>)
    ensures
        sorted_by_key(s).to_multiset() == s.to_multiset(),
    decreases s.len(),
{
    broadcast use vstd::seq_lib::to_multiset_build;

    if s.len() > 0 {
        lemma_sorted_by_key_permutes(s.drop_last());
        lemma_insert_sorted_multiset(sorted_by_key(s.drop_last()), s.last());
        assert(s.drop_last().push(s.last()) =~= s);
    }
}

/// Sorts a list stably (the contract of `slice::sort_by` with a total preorder).
pub fn sort_by_key<T: SortKey>(v: Vec<T>) -> (out: Vec<T>)
    ensures
        out@ == sorted_by_key(v@),
{
    let ghost input = v@;
    let mut rest = v;
    let mut out: Vec<T> = Vec::new();
    let ghost mut done: int = 0;
    assert(input.take(0) =~= Seq::<T>::empty());
    while rest.len() > 0
        invariant
            0 <= done <= input.len(),
            rest@ == input.skip(done),
            out@ == sorted_by_key(input.take(done)),
        decreases rest.len(),
    {
        let x = rest.remove(0);
        let mut pos: usize = out.len();
        while pos > 0 && !out[pos - 1].exec_key_le(&x)
            invariant
                0 <= pos <= out.len(),
                forall|k: int| pos <= k < out.len() ==> !out@[k].key_le(x),
            decreases pos,
        {
            pos -= 1;
        }
        proof {
            lemma_insert_at(out@, x, pos as int);
            assert(input.take(done + 1).drop_last() =~= input.take(done));
            assert(input.take(done + 1).last() == x);
            assert(rest@ =~= input.skip(done + 1));
            done = done + 1;
        }
        out.insert(pos, x);
    }
    assert(input.take(done) =~= input);
    out
}

/// Keeps at most the first `limit` items (`Vec::truncate`).
pub fn keep_first<T>(v: &mut Vec<T>, limit: usize)
    ensures
        final(v)@ == if old(v)@.len() <= limit {
            old(v)@
        } else {
            old(v)@.take(limit as int)
        },
{
    v.truncate(limit);
    proof {
        if old(v)@.len() <= limit {
            assert(v@ =~= old(v)@);
        }
    }
}

} // verus!
