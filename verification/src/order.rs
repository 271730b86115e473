//! Stable ordering by a relation: what a stable sort gives, written as insertion sort.
use vstd::prelude::*;

verus! {

/// Inserts `a` after every element `e` at the end of `s` for which `le(e, a)` fails to
/// hold, that is, after the last element that may come before it.
pub open spec fn insert_by<A>(s: Seq<A>, a: A, le: spec_fn(A, A) -> bool) -> Seq<A>
    decreases s.len(),
{
    if s.len() == 0 || le(s.last(), a) {
        s.push(a)
    } else {
        insert_by(s.drop_last(), a, le).push(s.last())
    }
}

/// The stable ordering of `s` by `le` (a total preorder): insertion sort.
pub open spec fn sort_by<A>(s: Seq<A>, le: spec_fn(A, A) -> bool) -> Seq<A>
    decreases s.len(),
{
    if s.len() == 0 {
        s
    } else {
        insert_by(sort_by(s.drop_last(), le), s.last(), le)
    }
}

/// Where `insert_by` puts `a`.
pub open spec fn insert_pos<A>(s: Seq<A>, a: A, le: spec_fn(A, A) -> bool) -> int
    decreases s.len(),
{
    if s.len() == 0 || le(s.last(), a) {
        s.len() as int
    } else {
        insert_pos(s.drop_last(), a, le)
    }
}

pub proof fn lemma_insert_by<A>(s: Seq<A>, a: A, le: spec_fn(A, A) -> bool)
    ensures
        0 <= insert_pos(s, a, le) <= s.len(),
        insert_by(s, a, le) == s.insert(insert_pos(s, a, le), a),
    decreases s.len(),
{
    if s.len() == 0 || le(s.last(), a) {
        assert(s.push(a) =~= s.insert(s.len() as int, a));
    } else {
        lemma_insert_by(s.drop_last(), a, le);
        let p = insert_pos(s.drop_last(), a, le);
        assert(s.drop_last().insert(p, a).push(s.last()) =~= s.insert(p, a));
    }
}

pub proof fn lemma_sort_by_len<A>(s: Seq<A>, le: spec_fn(A, A) -> bool)
    ensures
        sort_by(s, le).len() == s.len(),
    decreases s.len(),
{
    if s.len() > 0 {
        lemma_sort_by_len(s.drop_last(), le);
        lemma_insert_by(sort_by(s.drop_last(), le), s.last(), le);
    }
}

/// `s` is ordered by `le`: every element may come before every later one.
pub open spec fn sorted_by<A>(s: Seq<A>, le: spec_fn(A, A) -> bool) -> bool {
    forall|i: int, j: int| 0 <= i < j < s.len() ==> le(#[trigger] s[i], #[trigger] s[j])
}

/// `le` orders any two values one way or the other.
pub open spec fn total<A>(le: spec_fn(A, A) -> bool) -> bool {
    forall|x: A, y: A| #[trigger] le(x, y) || le(y, x)
}

pub open spec fn transitive<A>(le: spec_fn(A, A) -> bool) -> bool {
    forall|x: A, y: A, z: A| #[trigger] le(x, y) && #[trigger] le(y, z) ==> le(x, z)
}

proof fn lemma_insert_sorted<A>(s: Seq<A>, a: A, le: spec_fn(A, A) -> bool)
    requires
        sorted_by(s, le),
        total(le),
        transitive(le),
    ensures
        sorted_by(insert_by(s, a, le), le),
    decreases s.len(),
{
    if s.len() == 0 || le(s.last(), a) {
        let r = s.push(a);
        assert forall|i: int, j: int| 0 <= i < j < r.len() implies le(#[trigger] r[i], #[trigger] r[j]) by {
            if j == s.len() {
                if i < s.len() - 1 {
                    assert(le(s[i], s[s.len() - 1]));
                }
            }
        }
    } else {
        let d = s.drop_last();
        assert(sorted_by(d, le));
        lemma_insert_sorted(d, a, le);
        lemma_insert_by(d, a, le);
        let p = insert_pos(d, a, le);
        let q = insert_by(d, a, le);
        assert(le(a, s.last()));
        let r = q.push(s.last());
        assert forall|i: int, j: int| 0 <= i < j < r.len() implies le(#[trigger] r[i], #[trigger] r[j]) by {
            if j == q.len() {
                if i < p {
                    assert(q[i] == d[i]);
                    assert(le(s[i], s[s.len() - 1]));
                } else if i > p {
                    assert(q[i] == d[i - 1]);
                    assert(le(s[i - 1], s[s.len() - 1]));
                }
            }
        }
    }
}

/// Insertion sort by a total preorder gives an ordered sequence.
pub proof fn lemma_sort_by_sorted<A>(s: Seq<A>, le: spec_fn(A, A) -> bool)
    requires
        total(le),
        transitive(le),
    ensures
        sorted_by(sort_by(s, le), le),
    decreases s.len(),
{
    if s.len() > 0 {
        lemma_sort_by_sorted(s.drop_last(), le);
        lemma_insert_sorted(sort_by(s.drop_last(), le), s.last(), le);
    }
}

} // verus!
