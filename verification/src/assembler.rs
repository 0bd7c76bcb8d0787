//! Turning flat rows into nested ones: every parent row with the child rows
//! that point at it.

use crate::seqs::{lemma_filter_to_multiset, lemma_positions, positions};
use std::collections::HashMap;
use vstd::prelude::*;

verus! {

broadcast use vstd::std_specs::hash::group_hash_axioms;

/// A row that others can point at.
pub trait Identifiable {
    /// The key by which the row is found.
    spec fn key(&self) -> i32;

    /// Reads the key.
    fn id(&self) -> (id: i32)
        ensures
            id == self.key(),
    ;
}

/// A row that points at its parent row.
pub trait BelongsTo {
    /// The key of the parent row.
    spec fn parent_key(&self) -> i32;

    /// Reads the key of the parent row.
    fn parent_id(&self) -> (id: i32)
        ensures
            id == self.parent_key(),
    ;
}

impl<P: Identifiable, O> Identifiable for (P, O) {
    /// A parent that travels with another row is found by its own key.
    open spec fn key(&self) -> i32 {
        self.0.key()
    }

    fn id(&self) -> (id: i32) {
        self.0.id()
    }
}

impl<C: BelongsTo, O> BelongsTo for (C, O) {
    /// A child that travels with another row points where it points alone.
    open spec fn parent_key(&self) -> i32 {
        self.0.parent_key()
    }

    fn parent_id(&self) -> (id: i32) {
        self.0.parent_id()
    }
}

/// The test that a child row passes when it points at the parent with key `key`.
pub open spec fn child_of<C: BelongsTo>(key: i32) -> spec_fn(C) -> bool {
    |child: C| child.parent_key() == key
}

/// Whether no parent behind position `i` has the key of the parent at `i`.
pub open spec fn last_of_key<P: Identifiable>(parents: Seq<P>, i: int) -> bool {
    forall|j: int| i < j < parents.len() ==> (#[trigger] parents[j]).key() != parents[i].key()
}

/// The children that go with the parent at position `i`: those that point at
/// its key, in the order in which `children` holds them. Where several
/// parents share one key, the last of them has the children and the others
/// have none, so that no child is handed out twice.
pub open spec fn bucket<P: Identifiable, C: BelongsTo>(
    parents: Seq<P>,
    children: Seq<C>,
    i: int,
) -> Seq<C> {
    if last_of_key(parents, i) {
        children.filter(child_of(parents[i].key()))
    } else {
        Seq::empty()
    }
}

/// The nested rows: one entry for each parent, in the parents' order.
pub open spec fn assembled<P: Identifiable, C: BelongsTo>(
    parents: Seq<P>,
    children: Seq<C>,
) -> Seq<(P, Seq<C>)> {
    Seq::new(parents.len(), |i: int| (parents[i], bucket(parents, children, i)))
}

/// The entries of an assembled list, each child list as a sequence.
pub open spec fn nested<P, C>(entries: Seq<(P, Vec<C>)>) -> Seq<(P, Seq<C>)> {
    entries.map_values(|entry: (P, Vec<C>)| (entry.0, entry.1@))
}

/// Groups `children` under `parents`.
///
/// One pass over the parents seeds an empty list for each and records where
/// each key stands; one pass over the children appends each child to the list
/// of its parent. A child that points at none of the parents is left out.
pub fn assemble<P: Identifiable, C: BelongsTo>(parents: Vec<P>, children: Vec<C>) -> (out: Vec<
    (P, Vec<C>),
>)
    ensures
        nested(out@) == assembled(parents@, children@),
{
    let ghost all_parents = parents@;
    let ghost all_children = children@;
    let mut slots: HashMap<i32, usize> = HashMap::new();
    let mut out: Vec<(P, Vec<C>)> = Vec::new();
    for parent in it: parents
        invariant
            it.seq() == all_parents,
            out@.len() == it.index(),
            forall|j: int|
                0 <= j < out@.len() ==> (#[trigger] out@[j]).0 == all_parents[j] && out@[j].1@
                    == Seq::<C>::empty(),
            forall|key: i32| #[trigger]
                slots@.contains_key(key) ==> {
                    &&& slots@[key] < out@.len()
                    &&& all_parents[slots@[key] as int].key() == key
                    &&& forall|j: int|
                        slots@[key] < j < out@.len() ==> (#[trigger] all_parents[j]).key() != key
                },
            forall|j: int|
                0 <= j < out@.len() ==> slots@.contains_key((#[trigger] all_parents[j]).key()),
    {
        let at: usize = out.len();
        slots.insert(parent.id(), at);
        out.push((parent, Vec::new()));
    }
    for child in it: children
        invariant
            it.seq() == all_children,
            out@.len() == all_parents.len(),
            forall|key: i32| #[trigger]
                slots@.contains_key(key) ==> {
                    &&& slots@[key] < out@.len()
                    &&& all_parents[slots@[key] as int].key() == key
                    &&& forall|j: int|
                        slots@[key] < j < out@.len() ==> (#[trigger] all_parents[j]).key() != key
                },
            forall|j: int|
                0 <= j < out@.len() ==> slots@.contains_key((#[trigger] all_parents[j]).key()),
            forall|j: int|
                0 <= j < out@.len() ==> (#[trigger] out@[j]).0 == all_parents[j] && out@[j].1@
                    == bucket(all_parents, all_children.take(it.index()), j),
    {
        let ghost seen = all_children.take(it.index());
        let ghost before = out@;
        proof {
            assert(all_children.take(it.index() + 1) == seen.push(child));
            assert forall|key: i32|
                seen.push(child).filter(child_of::<C>(key)) == if child.parent_key() == key {
                    seen.filter(child_of::<C>(key)).push(child)
                } else {
                    seen.filter(child_of::<C>(key))
                } by {
                seen.lemma_filter_push(child, child_of::<C>(key));
            }
        }
        let key = child.parent_id();
        match slots.get(&key) {
            Some(slot) => {
                let at: usize = *slot;
                out[at].1.push(child);
                proof {
                    assert(last_of_key(all_parents, at as int));
                    assert forall|j: int| 0 <= j < out@.len() implies (#[trigger] out@[j]).0
                        == all_parents[j] && out@[j].1@ == bucket(
                        all_parents,
                        seen.push(child),
                        j,
                    ) by {
                        assert(before[j].0 == all_parents[j]);
                        if j != at && all_parents[j].key() == key {
                            if j < at {
                                assert(!last_of_key(all_parents, j));
                            } else {
                                assert(false);
                            }
                        }
                    }
                }
            },
            None => {
                proof {
                    assert forall|j: int| 0 <= j < out@.len() implies (#[trigger] out@[j]).0
                        == all_parents[j] && out@[j].1@ == bucket(
                        all_parents,
                        seen.push(child),
                        j,
                    ) by {
                        assert(slots@.contains_key(all_parents[j].key()));
                    }
                }
            },
        }
    }
    proof {
        assert(all_children.take(all_children.len() as int) == all_children);
        assert(nested(out@) =~= assembled(all_parents, all_children));
    }
    out
}

/// Whether no two parents share a key.
pub open spec fn distinct_keys<P: Identifiable>(parents: Seq<P>) -> bool {
    forall|i: int, j: int|
        0 <= i < j < parents.len() ==> (#[trigger] parents[i]).key() != (#[trigger] parents[j]).key()
}

/// Assembling keeps the parents: the result has one entry for each parent, in
/// the parents' order, whatever the children are.
pub proof fn lemma_parents_kept<P: Identifiable, C: BelongsTo>(parents: Seq<P>, children: Seq<C>)
    ensures
        assembled(parents, children).len() == parents.len(),
        forall|i: int|
            0 <= i < parents.len() ==> (#[trigger] assembled(parents, children)[i]).0 == parents[i],
{
}

/// Whether no child points at `key`.
pub open spec fn childless<C: BelongsTo>(children: Seq<C>, key: i32) -> bool {
    forall|k: int| 0 <= k < children.len() ==> (#[trigger] children[k]).parent_key() != key
}

/// Assembling is complete: a parent has, as a multiset, exactly the children
/// that point at its key, unless a later parent repeats its key and a child
/// points at it. So where no two parents share a key, that holds of every
/// parent.
pub proof fn lemma_children_complete<P: Identifiable, C: BelongsTo>(
    parents: Seq<P>,
    children: Seq<C>,
)
    ensures
        forall|i: int|
            0 <= i < parents.len() && (last_of_key(parents, i) || childless(
                children,
                parents[i].key(),
            )) ==> (#[trigger] assembled(parents, children)[i]).1.to_multiset()
                == children.to_multiset().filter(child_of(parents[i].key())),
        distinct_keys(parents) ==> forall|i: int|
            0 <= i < parents.len() ==> (#[trigger] assembled(parents, children)[i]).1.to_multiset()
                == children.to_multiset().filter(child_of(parents[i].key())),
{
    assert forall|i: int|
        0 <= i < parents.len() && (last_of_key(parents, i) || childless(
            children,
            parents[i].key(),
        )) implies (#[trigger] assembled(parents, children)[i]).1.to_multiset()
        == children.to_multiset().filter(child_of(parents[i].key())) by {
        let pred = child_of::<C>(parents[i].key());
        lemma_filter_to_multiset(children, pred);
        if !last_of_key(parents, i) {
            let kept = children.filter(pred);
            if kept.len() > 0 {
                children.lemma_filter_pred(pred, 0);
                assert(kept.contains(kept[0]));
                children.lemma_filter_contains_rev(pred, kept[0]);
                let k = choose|k: int| 0 <= k < children.len() && children[k] == kept[0];
                assert(children[k].parent_key() == parents[i].key());
            }
            assert(kept =~= Seq::<C>::empty());
        }
    }
    if distinct_keys(parents) {
        assert forall|i: int| 0 <= i < parents.len() implies last_of_key(parents, i) by {}
    }
}

/// No child goes astray: each child in an entry is one of `children` and
/// points at that entry's parent, so a child that points at none of the
/// parents is in no entry; and of several parents with one key only the last
/// has children, so no child stands in two entries.
pub proof fn lemma_children_under_their_parent<P: Identifiable, C: BelongsTo>(
    parents: Seq<P>,
    children: Seq<C>,
)
    ensures
        forall|i: int, k: int|
            0 <= i < parents.len() && 0 <= k < assembled(parents, children)[i].1.len() ==> {
                &&& (#[trigger] assembled(parents, children)[i].1[k]).parent_key()
                    == parents[i].key()
                &&& children.contains(assembled(parents, children)[i].1[k])
            },
        forall|i: int|
            0 <= i < parents.len() && !last_of_key(parents, i) ==> (#[trigger] assembled(
                parents,
                children,
            )[i]).1.len() == 0,
{
    broadcast use vstd::seq_lib::group_filter_ensures;

    assert forall|i: int, k: int|
        0 <= i < parents.len() && 0 <= k < assembled(parents, children)[i].1.len() implies {
        &&& (#[trigger] assembled(parents, children)[i].1[k]).parent_key() == parents[i].key()
        &&& children.contains(assembled(parents, children)[i].1[k])
    } by {
        let pred = child_of::<C>(parents[i].key());
        let kept = children.filter(pred);
        assert(assembled(parents, children)[i].1 == kept);
        children.lemma_filter_pred(pred, k);
        assert(pred(kept[k]));
        assert(kept.contains(kept[k]));
        children.lemma_filter_contains_rev(pred, kept[k]);
    }
}

/// Assembling keeps the children's order: the children of a parent are the
/// rows of `children` at the ascending positions of those that point at its
/// key, all of them where no later parent repeats the key, and none where
/// one does.
pub proof fn lemma_children_in_order<P: Identifiable, C: BelongsTo>(
    parents: Seq<P>,
    children: Seq<C>,
    i: int,
)
    requires
        0 <= i < parents.len(),
    ensures
        assembled(parents, children)[i].1 == if last_of_key(parents, i) {
            positions(children, child_of(parents[i].key())).map_values(|k: int| children[k])
        } else {
            Seq::empty()
        },
        forall|a: int, b: int|
            0 <= a < b < positions(children, child_of(parents[i].key())).len() ==> 0 <= (
            #[trigger] positions(children, child_of(parents[i].key()))[a]) < (#[trigger] positions(
                children,
                child_of(parents[i].key()),
            )[b]) < children.len(),
        forall|k: int|
            0 <= k < children.len() && (#[trigger] children[k]).parent_key() == parents[i].key()
                ==> positions(children, child_of(parents[i].key())).contains(k),
        forall|a: int|
            0 <= a < positions(children, child_of(parents[i].key())).len() ==> children[(
            #[trigger] positions(children, child_of(parents[i].key()))[a])].parent_key()
                == parents[i].key(),
{
    lemma_positions(children, child_of(parents[i].key()));
}

} // verus!
