//! The display order of annotations: a stable sort by start offset.
//!
//! The order is defined by inserting the annotations one after the other,
//! each behind everything that starts at or before it. The lemmas below
//! show that this is the stable sort: the result ascends, holds the same
//! annotations, keeps stored order among equal start offsets, and commutes
//! with removal.

use vstd::prelude::*;
use crate::model::annotation::AnnotationView;

verus! {

/// Where an annotation starting at offset `key` goes into an already
/// sorted sequence: behind every annotation that starts at or before `key`.
pub open spec fn insert_index(sorted: Seq<AnnotationView>, key: usize) -> int
    decreases sorted.len(),
{
    if sorted.len() == 0 {
        0
    } else if sorted.last().range.start_offset <= key {
        sorted.len() as int
    } else {
        insert_index(sorted.drop_last(), key)
    }
}

/// The annotations in display order: ascending by start offset, and in
/// stored order among annotations that start at the same offset.
pub open spec fn sorted_view(anns: Seq<AnnotationView>) -> Seq<AnnotationView>
    decreases anns.len(),
{
    if anns.len() == 0 {
        Seq::empty()
    } else {
        let rest = sorted_view(anns.drop_last());
        rest.insert(insert_index(rest, anns.last().range.start_offset), anns.last())
    }
}

/// The position in the display order of the annotation stored at
/// position `p`.
pub open spec fn display_index(anns: Seq<AnnotationView>, p: int) -> int
    recommends
        0 <= p < anns.len(),
    decreases anns.len(),
{
    if anns.len() == 0 {
        0
    } else {
        let rest = sorted_view(anns.drop_last());
        let at = insert_index(rest, anns.last().range.start_offset);
        if p >= anns.len() - 1 {
            at
        } else {
            let q = display_index(anns.drop_last(), p);
            if at <= q {
                q + 1
            } else {
                q
            }
        }
    }
}

/// Whether a sequence ascends by start offset.
pub open spec fn ascending(anns: Seq<AnnotationView>) -> bool {
    forall|i: int, j: int|
        0 <= i < j < anns.len() ==> anns[i].range.start_offset <= anns[j].range.start_offset
}

/// The insertion point splits an ascending sequence: everything before it
/// starts at or before `key`, everything from it on starts after `key`.
pub proof fn lemma_insert_index_splits(sorted: Seq<AnnotationView>, key: usize)
    requires
        ascending(sorted),
    ensures
        0 <= insert_index(sorted, key) <= sorted.len(),
        forall|i: int|
            0 <= i < insert_index(sorted, key) ==> sorted[i].range.start_offset <= key,
        forall|i: int|
            insert_index(sorted, key) <= i < sorted.len() ==> sorted[i].range.start_offset > key,
    decreases sorted.len(),
{
    if sorted.len() > 0 {
        let front = sorted.drop_last();
        if sorted.last().range.start_offset > key {
            assert(ascending(front)) by {
                assert forall|i: int, j: int|
                    0 <= i < j < front.len() implies front[i].range.start_offset
                    <= front[j].range.start_offset by {
                    assert(front[i] == sorted[i] && front[j] == sorted[j]);
                }
            }
            lemma_insert_index_splits(front, key);
            let at = insert_index(front, key);
            assert forall|i: int| 0 <= i < at implies sorted[i].range.start_offset <= key by {
                assert(sorted[i] == front[i]);
            }
            assert forall|i: int| at <= i < sorted.len() implies sorted[i].range.start_offset
                > key by {
                if i < front.len() {
                    assert(sorted[i] == front[i]);
                }
            }
        } else {
            assert forall|i: int| 0 <= i < sorted.len() implies sorted[i].range.start_offset
                <= key by {
                if i < sorted.len() - 1 {
                    let last = sorted.len() - 1;
                    assert(sorted[i].range.start_offset <= sorted[last].range.start_offset);
                }
            }
        }
    }
}

/// A split point of a sequence is its insertion point.
pub proof fn lemma_insert_index_unique(sorted: Seq<AnnotationView>, key: usize, k: int)
    requires
        0 <= k <= sorted.len(),
        forall|i: int| 0 <= i < k ==> sorted[i].range.start_offset <= key,
        forall|i: int| k <= i < sorted.len() ==> sorted[i].range.start_offset > key,
    ensures
        insert_index(sorted, key) == k,
    decreases sorted.len(),
{
    if sorted.len() > 0 && sorted.last().range.start_offset > key {
        lemma_insert_index_unique(sorted.drop_last(), key, k);
    }
}

/// The display order has as many entries as there are annotations, and it
/// ascends by start offset.
pub proof fn lemma_sorted_view_ascends(anns: Seq<AnnotationView>)
    ensures
        sorted_view(anns).len() == anns.len(),
        ascending(sorted_view(anns)),
    decreases anns.len(),
{
    if anns.len() > 0 {
        let rest = sorted_view(anns.drop_last());
        let key = anns.last().range.start_offset;
        lemma_sorted_view_ascends(anns.drop_last());
        lemma_insert_index_splits(rest, key);
    }
}

/// The display order holds exactly the stored annotations, each as often
/// as it is stored.
pub proof fn lemma_sorted_view_permutes(anns: Seq<AnnotationView>)
    ensures
        sorted_view(anns).to_multiset() == anns.to_multiset(),
    decreases anns.len(),
{
    broadcast use vstd::seq_lib::group_to_multiset_ensures;

    if anns.len() > 0 {
        let front = anns.drop_last();
        let last = anns.last();
        let rest = sorted_view(front);
        let at = insert_index(rest, last.range.start_offset);
        lemma_sorted_view_permutes(front);
        lemma_sorted_view_ascends(front);
        lemma_insert_index_splits(rest, last.range.start_offset);
        let inserted = rest.insert(at, last);
        assert(inserted.remove(at) =~= rest);
        assert(inserted[at] == last);
        assert(inserted.contains(last));
        assert(inserted.to_multiset() =~= rest.to_multiset().insert(last));
        assert(anns =~= front.push(last));
    } else {
        assert(sorted_view(anns) =~= anns);
    }
}

/// Every entry of the display order is one of the stored annotations.
pub proof fn lemma_sorted_view_members(anns: Seq<AnnotationView>, k: int)
    requires
        0 <= k < sorted_view(anns).len(),
    ensures
        exists|p: int| 0 <= p < anns.len() && anns[p] == sorted_view(anns)[k],
{
    broadcast use vstd::seq_lib::group_to_multiset_ensures;

    let shown = sorted_view(anns);
    lemma_sorted_view_permutes(anns);
    assert(shown.contains(shown[k]));
    assert(anns.to_multiset().count(shown[k]) > 0);
    assert(anns.contains(shown[k]));
}

/// The annotation stored at position `p` stands at its display index.
pub proof fn lemma_display_index(anns: Seq<AnnotationView>, p: int)
    requires
        0 <= p < anns.len(),
    ensures
        0 <= display_index(anns, p) < anns.len(),
        sorted_view(anns).len() == anns.len(),
        sorted_view(anns)[display_index(anns, p)] == anns[p],
    decreases anns.len(),
{
    let front = anns.drop_last();
    let rest = sorted_view(front);
    let key = anns.last().range.start_offset;
    lemma_sorted_view_ascends(front);
    lemma_sorted_view_ascends(anns);
    lemma_insert_index_splits(rest, key);
    if p < anns.len() - 1 {
        lemma_display_index(front, p);
    }
}

/// Every place of the display order is the display index of some stored
/// annotation.
pub proof fn lemma_display_index_onto(anns: Seq<AnnotationView>, k: int) -> (p: int)
    requires
        0 <= k < anns.len(),
    ensures
        0 <= p < anns.len(),
        display_index(anns, p) == k,
    decreases anns.len(),
{
    let front = anns.drop_last();
    let rest = sorted_view(front);
    let at = insert_index(rest, anns.last().range.start_offset);
    lemma_sorted_view_ascends(front);
    lemma_insert_index_splits(rest, anns.last().range.start_offset);
    if k == at {
        anns.len() - 1
    } else if k < at {
        lemma_display_index_onto(front, k)
    } else {
        lemma_display_index_onto(front, k - 1)
    }
}

/// Display order follows start offsets, and stored order where start
/// offsets are equal: of two annotations, the one stored first is shown
/// first unless it starts strictly later.
pub proof fn lemma_display_order(anns: Seq<AnnotationView>, p: int, q: int)
    requires
        0 <= p < q < anns.len(),
    ensures
        anns[p].range.start_offset <= anns[q].range.start_offset ==> display_index(anns, p)
            < display_index(anns, q),
        anns[p].range.start_offset > anns[q].range.start_offset ==> display_index(anns, q)
            < display_index(anns, p),
    decreases anns.len(),
{
    let front = anns.drop_last();
    let rest = sorted_view(front);
    let key = anns.last().range.start_offset;
    lemma_sorted_view_ascends(front);
    lemma_insert_index_splits(rest, key);
    lemma_display_index(front, p);
    if q < anns.len() - 1 {
        lemma_display_order(front, p, q);
    }
}

/// Taking one entry out of an ascending sequence moves the insertion point
/// down by one if the entry stood before it, and not at all otherwise.
proof fn lemma_insert_index_after_remove(sorted: Seq<AnnotationView>, key: usize, q: int)
    requires
        ascending(sorted),
        0 <= q < sorted.len(),
    ensures
        insert_index(sorted.remove(q), key) == if q < insert_index(sorted, key) {
            insert_index(sorted, key) - 1
        } else {
            insert_index(sorted, key)
        },
{
    let at = insert_index(sorted, key);
    let shorter = sorted.remove(q);
    let at2 = if q < at {
        at - 1
    } else {
        at
    };
    lemma_insert_index_splits(sorted, key);
    assert forall|i: int| 0 <= i < at2 implies shorter[i].range.start_offset <= key by {
        if i < q {
            assert(shorter[i] == sorted[i]);
        } else {
            assert(shorter[i] == sorted[i + 1]);
        }
    }
    assert forall|i: int| at2 <= i < shorter.len() implies shorter[i].range.start_offset
        > key by {
        if i < q {
            assert(shorter[i] == sorted[i]);
        } else {
            assert(shorter[i] == sorted[i + 1]);
        }
    }
    lemma_insert_index_unique(shorter, key, at2);
}

/// Inserting an element and then removing another one can be done the
/// other way round, with the positions shifted accordingly.
proof fn lemma_insert_then_remove<A>(s: Seq<A>, at: int, x: A, q: int)
    requires
        0 <= at <= s.len(),
        0 <= q < s.len(),
    ensures
        at <= q ==> s.insert(at, x).remove(q + 1) == s.remove(q).insert(at, x),
        q < at ==> s.insert(at, x).remove(q) == s.remove(q).insert(at - 1, x),
{
    if at <= q {
        assert(s.insert(at, x).remove(q + 1) =~= s.remove(q).insert(at, x));
    } else {
        assert(s.insert(at, x).remove(q) =~= s.remove(q).insert(at - 1, x));
    }
}

/// Removing a stored annotation removes its entry from the display order
/// and leaves every other entry where it was relative to the rest.
pub proof fn lemma_sorted_view_remove(anns: Seq<AnnotationView>, p: int)
    requires
        0 <= p < anns.len(),
    ensures
        0 <= display_index(anns, p) < sorted_view(anns).len(),
        sorted_view(anns.remove(p)) == sorted_view(anns).remove(display_index(anns, p)),
    decreases anns.len(),
{
    let front = anns.drop_last();
    let last = anns.last();
    let key = last.range.start_offset;
    let rest = sorted_view(front);
    let at = insert_index(rest, key);
    lemma_display_index(anns, p);
    lemma_sorted_view_ascends(front);
    lemma_insert_index_splits(rest, key);
    if p == anns.len() - 1 {
        assert(anns.remove(p) =~= front);
        assert(rest.insert(at, last).remove(at) =~= rest);
    } else {
        let q = display_index(front, p);
        let shorter = anns.remove(p);
        lemma_sorted_view_remove(front, p);
        lemma_display_index(front, p);
        assert(shorter.drop_last() =~= front.remove(p));
        assert(shorter.last() == last);
        lemma_insert_index_after_remove(rest, key, q);
        lemma_insert_then_remove(rest, at, last, q);
    }
}

} // verus!
