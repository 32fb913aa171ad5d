//! Small facts about sequences that the loop proofs of this crate share.

use vstd::prelude::*;

verus! {

/// Filtering a sequence extended by one element either keeps or drops that
/// element and leaves the filtered prefix as it was.
pub proof fn lemma_filter_push<A>(s: Seq<A>, x: A, pred: spec_fn(A) -> bool)
    ensures
        s.push(x).filter(pred) == if pred(x) {
            s.filter(pred).push(x)
        } else {
            s.filter(pred)
        },
{
    reveal(Seq::filter);
    assert(s.push(x).drop_last() == s);
}

/// The prefix of length `i + 1` is the prefix of length `i` followed by the
/// element at index `i`.
pub proof fn lemma_take_step<A>(s: Seq<A>, i: int)
    requires
        0 <= i < s.len(),
    ensures
        s.take(i + 1) == s.take(i).push(s[i]),
{
}

/// One step of a filtering scan: the filtered prefix grows by the scanned
/// element exactly when the predicate holds of it.
pub proof fn lemma_filter_step<A>(s: Seq<A>, i: int, pred: spec_fn(A) -> bool)
    requires
        0 <= i < s.len(),
    ensures
        s.take(i + 1).filter(pred) == if pred(s[i]) {
            s.take(i).filter(pred).push(s[i])
        } else {
            s.take(i).filter(pred)
        },
{
    lemma_take_step(s, i);
    lemma_filter_push(s.take(i), s[i], pred);
}

/// Taking the whole length of a sequence gives the sequence back.
pub proof fn lemma_take_all<A>(s: Seq<A>)
    ensures
        s.take(s.len() as int) == s,
{
}

/// Every element of a filtered sequence satisfies the predicate and stems from
/// the sequence that was filtered.
pub proof fn lemma_filter_members<A>(s: Seq<A>, pred: spec_fn(A) -> bool)
    ensures
        forall|i: int|
            0 <= i < s.filter(pred).len() ==> pred(#[trigger] s.filter(pred)[i]) && s.contains(
                s.filter(pred)[i],
            ),
        s.filter(pred).len() <= s.len(),
    decreases s.len(),
{
    reveal(Seq::filter);
    if s.len() > 0 {
        let front = s.drop_last();
        lemma_filter_members(front, pred);
        assert forall|i: int| 0 <= i < s.filter(pred).len() implies pred(
            #[trigger] s.filter(pred)[i],
        ) && s.contains(s.filter(pred)[i]) by {
            if i < front.filter(pred).len() {
                let x = front.filter(pred)[i];
                assert(front.contains(x));
                let k = choose|k: int| 0 <= k < front.len() && front[k] == x;
                assert(s[k] == x);
            } else {
                assert(s.filter(pred)[i] == s.last());
                assert(s[s.len() - 1] == s.last());
            }
        }
    }
}

/// Filtering keeps every element that satisfies the predicate.
pub proof fn lemma_filter_keeps<A>(s: Seq<A>, pred: spec_fn(A) -> bool, i: int)
    requires
        0 <= i < s.len(),
        pred(s[i]),
    ensures
        s.filter(pred).contains(s[i]),
    decreases s.len(),
{
    reveal(Seq::filter);
    let front = s.drop_last();
    if i == s.len() - 1 {
        let f = s.filter(pred);
        assert(f[f.len() - 1] == s[i]);
    } else {
        lemma_filter_keeps(front, pred, i);
        let x = s[i];
        assert(front[i] == x);
        let k = choose|k: int| 0 <= k < front.filter(pred).len() && front.filter(pred)[k] == x;
        assert(s.filter(pred)[k] == x);
    }
}

/// Filtering twice is filtering once by both predicates.
pub proof fn lemma_filter_twice<A>(
    s: Seq<A>,
    first: spec_fn(A) -> bool,
    second: spec_fn(A) -> bool,
    both: spec_fn(A) -> bool,
)
    requires
        forall|x: A| #[trigger] both(x) == (first(x) && second(x)),
    ensures
        s.filter(first).filter(second) == s.filter(both),
    decreases s.len(),
{
    reveal(Seq::filter);
    if s.len() > 0 {
        let front = s.drop_last();
        lemma_filter_twice(front, first, second, both);
        if first(s.last()) {
            lemma_filter_push(front.filter(first), s.last(), second);
        }
    }
}

/// Filtering by a predicate that holds of every element changes nothing.
pub proof fn lemma_filter_all<A>(s: Seq<A>, pred: spec_fn(A) -> bool)
    requires
        forall|x: A| #[trigger] pred(x),
    ensures
        s.filter(pred) == s,
    decreases s.len(),
{
    reveal(Seq::filter);
    if s.len() > 0 {
        lemma_filter_all(s.drop_last(), pred);
        assert(s.drop_last().push(s.last()) =~= s);
    }
}

/// The elements of `s` whose mark in `marks` is set, in order.
pub open spec fn select<A>(s: Seq<A>, marks: Seq<bool>) -> Seq<A>
    decreases s.len(),
{
    if s.len() == 0 {
        Seq::empty()
    } else if marks.last() {
        select(s.drop_last(), marks.drop_last()).push(s.last())
    } else {
        select(s.drop_last(), marks.drop_last())
    }
}

/// Selecting by marks that tell where a predicate holds is filtering by the
/// predicate.
pub proof fn lemma_select_is_filter<A>(s: Seq<A>, marks: Seq<bool>, pred: spec_fn(A) -> bool)
    requires
        marks.len() == s.len(),
        forall|i: int| 0 <= i < s.len() ==> marks[i] == pred(#[trigger] s[i]),
    ensures
        select(s, marks) == s.filter(pred),
    decreases s.len(),
{
    reveal(Seq::filter);
    if s.len() > 0 {
        lemma_select_is_filter(s.drop_last(), marks.drop_last(), pred);
    }
}

/// Selecting commutes with mapping.
pub proof fn lemma_select_map<A, B>(s: Seq<A>, marks: Seq<bool>, f: spec_fn(A) -> B)
    requires
        marks.len() == s.len(),
    ensures
        select(s, marks).map_values(f) == select(s.map_values(f), marks),
    decreases s.len(),
{
    if s.len() == 0 {
        assert(select(s, marks).map_values(f) =~= select(s.map_values(f), marks));
    } else {
        lemma_select_map(s.drop_last(), marks.drop_last(), f);
        assert(s.map_values(f).drop_last() =~= s.drop_last().map_values(f));
        assert(s.map_values(f).last() == f(s.last()));
        let front = select(s.drop_last(), marks.drop_last());
        if marks.last() {
            assert(front.push(s.last()).map_values(f) =~= front.map_values(f).push(f(s.last())));
        }
    }
}

/// One step of a selecting scan.
pub proof fn lemma_select_step<A>(s: Seq<A>, marks: Seq<bool>, i: int)
    requires
        marks.len() == s.len(),
        0 <= i < s.len(),
    ensures
        select(s.take(i + 1), marks.take(i + 1)) == if marks[i] {
            select(s.take(i), marks.take(i)).push(s[i])
        } else {
            select(s.take(i), marks.take(i))
        },
{
    assert(s.take(i + 1).drop_last() == s.take(i));
    assert(marks.take(i + 1).drop_last() == marks.take(i));
}

/// Keeps the elements of `v` whose mark is set and drops the others. Those
/// that stay keep their order.
pub fn retain_marked<A>(v: &mut Vec<A>, marks: &Vec<bool>)
    requires
        marks@.len() == old(v)@.len(),
    ensures
        final(v)@ == select(old(v)@, marks@),
{
    let ghost start = v@;
    let mut kept: usize = 0;
    let mut seen: usize = 0;
    while seen < marks.len()
        invariant
            marks@.len() == start.len(),
            kept <= seen <= start.len(),
            kept == select(start.take(seen as int), marks@.take(seen as int)).len(),
            v@ == select(start.take(seen as int), marks@.take(seen as int)) + start.skip(
                seen as int,
            ),
        decreases start.len() - seen,
    {
        proof {
            lemma_select_step(start, marks@, seen as int);
        }
        let ghost front = select(start.take(seen as int), marks@.take(seen as int));
        if marks[seen] {
            assert(v@ =~= front.push(start[seen as int]) + start.skip(seen + 1));
            kept += 1;
        } else {
            v.remove(kept);
            assert(v@ =~= front + start.skip(seen + 1));
        }
        seen += 1;
    }
    proof {
        lemma_take_all(start);
        lemma_take_all(marks@);
        assert(v@ =~= select(start, marks@));
    }
}

} // verus!
