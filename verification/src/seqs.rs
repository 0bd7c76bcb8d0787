//! Facts about choosing rows from a sequence and mapping them, which the
//! reads of the store share.

use vstd::prelude::*;

verus! {

/// The rows of `rows` that pass `pred`, in their order, each turned by `f`.
pub open spec fn select<A, B>(rows: Seq<A>, pred: spec_fn(A) -> bool, f: spec_fn(A) -> B) -> Seq<B> {
    rows.filter(pred).map_values(f)
}

/// The positions in `rows` of the rows that pass `pred`, ascending.
pub open spec fn positions<A>(rows: Seq<A>, pred: spec_fn(A) -> bool) -> Seq<int>
    decreases rows.len(),
{
    if rows.len() == 0 {
        Seq::empty()
    } else {
        let before = positions(rows.drop_last(), pred);
        if pred(rows.last()) {
            before.push(rows.len() - 1)
        } else {
            before
        }
    }
}

/// `positions` lists exactly the places of the rows that pass `pred`, each
/// once and in ascending order, and the rows at those places are the rows
/// that the filter keeps, in the same order.
pub proof fn lemma_positions<A>(rows: Seq<A>, pred: spec_fn(A) -> bool)
    ensures
        forall|a: int|
            0 <= a < positions(rows, pred).len() ==> {
                &&& 0 <= (#[trigger] positions(rows, pred)[a]) < rows.len()
                &&& pred(rows[positions(rows, pred)[a]])
            },
        forall|a: int, b: int|
            0 <= a < b < positions(rows, pred).len() ==> (#[trigger] positions(rows, pred)[a]) < (
            #[trigger] positions(rows, pred)[b]),
        forall|k: int|
            0 <= k < rows.len() && pred(#[trigger] rows[k]) ==> positions(rows, pred).contains(k),
        rows.filter(pred) == positions(rows, pred).map_values(|k: int| rows[k]),
    decreases rows.len(),
{
    let here = positions(rows, pred);
    if rows.len() == 0 {
        assert(rows.filter(pred) =~= here.map_values(|k: int| rows[k])) by {
            reveal(Seq::filter);
        }
    } else {
        let rest = rows.drop_last();
        let last = rows.last();
        let before = positions(rest, pred);
        lemma_positions(rest, pred);
        assert(rows == rest.push(last));
        rest.lemma_filter_push(last, pred);
        assert forall|k: int| 0 <= k < rows.len() && pred(#[trigger] rows[k]) implies here.contains(
            k,
        ) by {
            if k < rest.len() {
                assert(pred(rest[k]));
                let a = choose|a: int| 0 <= a < before.len() && before[a] == k;
                assert(here[a] == k);
            } else {
                assert(here[here.len() - 1] == k);
            }
        }
        assert(before.map_values(|k: int| rest[k]) =~= before.map_values(|k: int| rows[k]));
        assert(rows.filter(pred) =~= here.map_values(|k: int| rows[k]));
    }
}

/// Filtering a sequence and then forgetting the order gives what filtering
/// the multiset of its elements gives.
pub proof fn lemma_filter_to_multiset<A>(s: Seq<A>, pred: spec_fn(A) -> bool)
    ensures
        s.filter(pred).to_multiset() == s.to_multiset().filter(pred),
    decreases s.len(),
{
    broadcast use vstd::multiset::group_multiset_axioms;
    broadcast use vstd::seq_lib::to_multiset_build;

    if s.len() == 0 {
        reveal(Seq::filter);
        s.to_multiset_ensures();
        assert(s.filter(pred).to_multiset() =~= s.to_multiset().filter(pred));
    } else {
        let rest = s.drop_last();
        let last = s.last();
        lemma_filter_to_multiset(rest, pred);
        assert(s == rest.push(last));
        rest.lemma_filter_push(last, pred);
        assert(s.filter(pred).to_multiset() =~= s.to_multiset().filter(pred));
    }
}

/// What one more row adds to a selection: the row turned by `f` where it
/// passes `pred`, and nothing where it does not.
pub proof fn lemma_select_next<A, B>(
    rows: Seq<A>,
    k: int,
    pred: spec_fn(A) -> bool,
    f: spec_fn(A) -> B,
)
    requires
        0 <= k < rows.len(),
    ensures
        select(rows.take(k + 1), pred, f) == if pred(rows[k]) {
            select(rows.take(k), pred, f).push(f(rows[k]))
        } else {
            select(rows.take(k), pred, f)
        },
{
    assert(rows.take(k + 1) == rows.take(k).push(rows[k]));
    rows.take(k).lemma_filter_push(rows[k], pred);
    rows.take(k).filter(pred).lemma_push_map_commute(f, rows[k]);
}

/// A selection from no rows is empty, and a selection from all the rows that
/// were taken is the selection from the rows.
pub proof fn lemma_select_ends<A, B>(rows: Seq<A>, pred: spec_fn(A) -> bool, f: spec_fn(A) -> B)
    ensures
        select(rows.take(0), pred, f) == Seq::<B>::empty(),
        select(rows.take(rows.len() as int), pred, f) == select(rows, pred, f),
{
    reveal(Seq::filter);
    assert(rows.take(0).filter(pred) =~= Seq::<A>::empty());
    assert(select(rows.take(0), pred, f) =~= Seq::<B>::empty());
    assert(rows.take(rows.len() as int) == rows);
}

/// Filtering before a mapping gives what filtering after it gives, where the
/// test after the mapping says of the mapped row what the test before it
/// says of the row.
pub proof fn lemma_filter_map_commute<A, B>(
    rows: Seq<A>,
    pred: spec_fn(A) -> bool,
    f: spec_fn(A) -> B,
    mapped_pred: spec_fn(B) -> bool,
)
    requires
        forall|row: A| #[trigger] pred(row) == mapped_pred(f(row)),
    ensures
        rows.filter(pred).map_values(f) == rows.map_values(f).filter(mapped_pred),
    decreases rows.len(),
{
    if rows.len() == 0 {
        reveal(Seq::filter);
        assert(rows.filter(pred).map_values(f) =~= rows.map_values(f).filter(mapped_pred));
    } else {
        let rest = rows.drop_last();
        let last = rows.last();
        lemma_filter_map_commute(rest, pred, f, mapped_pred);
        assert(rows == rest.push(last));
        rest.lemma_filter_push(last, pred);
        rest.lemma_push_map_commute(f, last);
        rest.map_values(f).lemma_filter_push(f(last), mapped_pred);
        rest.filter(pred).lemma_push_map_commute(f, last);
        assert(pred(last) == mapped_pred(f(last)));
    }
}

/// A second filter whose test is the stricter one makes the first needless.
pub proof fn lemma_filter_narrows<A>(
    rows: Seq<A>,
    wide: spec_fn(A) -> bool,
    narrow: spec_fn(A) -> bool,
)
    requires
        forall|row: A| #[trigger] narrow(row) ==> wide(row),
    ensures
        rows.filter(wide).filter(narrow) == rows.filter(narrow),
    decreases rows.len(),
{
    if rows.len() == 0 {
        reveal(Seq::filter);
        assert(rows.filter(wide).filter(narrow) =~= rows.filter(narrow));
    } else {
        let rest = rows.drop_last();
        let last = rows.last();
        lemma_filter_narrows(rest, wide, narrow);
        assert(rows == rest.push(last));
        rest.lemma_filter_push(last, wide);
        rest.lemma_filter_push(last, narrow);
        rest.filter(wide).lemma_filter_push(last, narrow);
        assert(narrow(last) ==> wide(last));
    }
}

} // verus!
