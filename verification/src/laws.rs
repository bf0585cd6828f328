//! What holds of every address space and of sequences of its operations,
//! stated over the views and the layout rules that the operations' own
//! contracts use.

use crate::entry::{MapEntry, PAGE_SIZE};
use crate::layout::{
    all_aligned, can_place_at, gap_ceiling, gap_fits, gap_floor, is_first_fit, is_slot,
    lemma_separated, round_up_spec, well_spaced,
};
use vstd::prelude::*;

verus! {

/// The rounded value is the least multiple of the page size that is not
/// below `n`: it is such a multiple, and no such multiple `m` is smaller.
pub proof fn lemma_round_up_least(n: int, m: int)
    requires
        n >= 0,
    ensures
        round_up_spec(n) % 4096 == 0,
        n <= round_up_spec(n) < n + 4096,
        m % 4096 == 0 && m >= n ==> m >= round_up_spec(n),
{
}

/// Every span is a multiple of the page size. Where every base is one too,
/// so is the end of every entry.
pub proof fn lemma_spans_are_pages<S>(es: Seq<MapEntry<S>>, k: int)
    requires
        well_spaced(es),
        0 <= k < es.len(),
    ensures
        es[k].span % 4096 == 0,
        all_aligned(es) ==> es[k].addr % 4096 == 0 && es[k].end() % 4096 == 0,
{
}

/// Two distinct entries never intersect, and at least one page lies between
/// them: no address is covered by both, and the one that begins first ends a
/// page or more before the other begins.
pub proof fn lemma_no_overlap<S>(es: Seq<MapEntry<S>>, i: int, j: int, a: int)
    requires
        well_spaced(es),
        0 <= i < es.len(),
        0 <= j < es.len(),
        i != j,
    ensures
        es[i].end() + PAGE_SIZE <= es[j].addr || es[j].end() + PAGE_SIZE <= es[i].addr,
        i < j <==> es[i].addr < es[j].addr,
        !(es[i].covers(a) && es[j].covers(a)),
{
    if i < j {
        lemma_separated(es, i, j);
    } else {
        lemma_separated(es, j, i);
    }
}

/// Bases ascend strictly with the index.
pub proof fn lemma_ascending<S>(es: Seq<MapEntry<S>>)
    requires
        well_spaced(es),
    ensures
        forall|i: int, j: int| 0 <= i < j < es.len() ==> es[i].addr < es[j].addr,
{
    assert forall|i: int, j: int| 0 <= i < j < es.len() implies es[i].addr < es[j].addr by {
        lemma_separated(es, i, j);
    }
}

/// A guard page lies below the first entry and above the last one.
pub proof fn lemma_outer_guards<S>(es: Seq<MapEntry<S>>, k: int)
    requires
        well_spaced(es),
        0 <= k < es.len(),
    ensures
        PAGE_SIZE <= es[k].addr,
        es[k].end() + PAGE_SIZE <= usize::MAX,
{
    let n = es.len() as int;
    assert(gap_floor(es, 0) + PAGE_SIZE <= gap_ceiling(es, 0));
    assert(gap_floor(es, n) + PAGE_SIZE <= gap_ceiling(es, n));
    if 0 < k {
        lemma_separated(es, 0, k);
    }
    if k < n - 1 {
        lemma_separated(es, k, n - 1);
    }
}

/// At most one gap is the first that fits, and at most one index is the slot
/// of an address: the contracts that speak of "some" such index speak of one.
pub proof fn lemma_placement_unique<S>(es: Seq<MapEntry<S>>, span: int, addr: int, i: int, j: int)
    ensures
        is_first_fit(es, i, span) && is_first_fit(es, j, span) ==> i == j,
        is_slot(es, addr, i) && is_slot(es, addr, j) ==> i == j,
{
    if is_first_fit(es, i, span) && is_first_fit(es, j, span) {
        if i < j {
            assert(gap_fits(es, i, span));
        }
        if j < i {
            assert(gap_fits(es, j, span));
        }
    }
    if is_slot(es, addr, i) && is_slot(es, addr, j) {
        if i < j {
            assert(es[i].addr <= addr);
        }
        if j < i {
            assert(es[j].addr <= addr);
        }
    }
}

/// Placing an entry at a fixed address, removing the entry with that base,
/// and placing it again: the removal finds exactly the entry that was
/// placed and gives back the space as it was, so the second placement is
/// allowed as the first was, goes to the same slot and yields the same
/// space with the same base.
pub proof fn lemma_round_trip<S>(es: Seq<MapEntry<S>>, e: MapEntry<S>, i: int, k: int, j: int)
    requires
        well_spaced(es),
        can_place_at(es, e.addr as int, e.span as int),
        is_slot(es, e.addr as int, i),
        0 <= k < es.insert(i, e).len(),
        es.insert(i, e)[k].addr == e.addr,
        is_slot(es.insert(i, e).remove(k), e.addr as int, j),
    ensures
        k == i,
        es.insert(i, e).remove(k) == es,
        can_place_at(es.insert(i, e).remove(k), e.addr as int, e.span as int),
        j == i,
        es.insert(i, e).remove(k).insert(j, e) == es.insert(i, e),
        es.insert(i, e).remove(k).insert(j, e)[j].addr == e.addr,
{
    let placed = es.insert(i, e);
    if k < i {
        assert(placed[k] == es[k]);
        assert(es[k].addr <= e.addr);
    }
    if k > i {
        assert(placed[k] == es[k - 1]);
        assert(es[k - 1].addr > e.addr);
    }
    assert(placed.remove(i) =~= es);
    lemma_placement_unique(es, 0, e.addr as int, i, j);
}

/// In an empty space a region can be placed at `start` exactly when it
/// begins more than a page above the origin and ends a page or more below
/// the end of the address range.
pub proof fn lemma_placement_in_empty_space<S>(start: int, span: int)
    ensures
        can_place_at(Seq::<MapEntry<S>>::empty(), start, span) <==> (PAGE_SIZE < start && start
            + span + PAGE_SIZE <= usize::MAX),
        is_slot(Seq::<MapEntry<S>>::empty(), start, 0),
        span >= 0 ==> (is_first_fit(Seq::<MapEntry<S>>::empty(), 0, span) <==> span + 2
            * PAGE_SIZE <= usize::MAX),
{
}

/// After an entry has been placed, an entry with its base is there to be
/// removed, and its base cannot be used again while it stays.
pub proof fn lemma_placed_is_present<S>(es: Seq<MapEntry<S>>, e: MapEntry<S>, i: int, span: int)
    requires
        0 <= i <= es.len(),
    ensures
        es.insert(i, e)[i] == e,
        !can_place_at(es.insert(i, e), e.addr as int, span),
{
    lemma_occupied_base_conflicts(es.insert(i, e), i, span);
}

/// A region cannot be placed at the base of an entry that is there,
/// whatever its span.
pub proof fn lemma_occupied_base_conflicts<S>(es: Seq<MapEntry<S>>, k: int, span: int)
    requires
        0 <= k < es.len(),
    ensures
        !can_place_at(es, es[k].addr as int, span),
{
    assert(es[k].addr <= es[k].addr);
}

/// At most one entry covers an address.
pub proof fn lemma_covering_unique<S>(es: Seq<MapEntry<S>>, a: int, i: int, j: int)
    requires
        well_spaced(es),
        0 <= i < es.len(),
        0 <= j < es.len(),
        es[i].covers(a),
        es[j].covers(a),
    ensures
        i == j,
{
    if i != j {
        lemma_no_overlap(es, i, j, a);
    }
}

} // verus!
