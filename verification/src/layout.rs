//! The layout rules of an address space, over the sequence of its entries:
//! page rounding, gaps and guard pages, and where a new entry may go.

use crate::entry::{MapEntry, PAGE_SIZE};
use vstd::prelude::*;

verus! {

/// `n` rounded up to a multiple of the page size.
pub open spec fn round_up_spec(n: int) -> int {
    if n % 4096 == 0 {
        n
    } else {
        (n / 4096 + 1) * 4096
    }
}

/// The lower edge of gap `i`: the origin for the first gap, else the end of
/// the entry before it. Gap `i` lies before entry `i`; the last gap, with
/// `i == es.len()`, lies after the last entry.
pub open spec fn gap_floor<S>(es: Seq<MapEntry<S>>, i: int) -> int {
    if i <= 0 {
        0
    } else {
        es[i - 1].addr + es[i - 1].span
    }
}

/// The upper edge of gap `i`: the base of entry `i`, or the greatest address
/// for the last gap.
pub open spec fn gap_ceiling<S>(es: Seq<MapEntry<S>>, i: int) -> int {
    if i >= es.len() {
        usize::MAX as int
    } else {
        es[i].addr as int
    }
}

/// The invariant of an address space. Every span is a multiple of the page
/// size; the bytes of the store that an entry maps have offsets that fit the
/// machine word; and every gap is at least one page wide, so that entries
/// are in strictly ascending order, do not overlap, and have a guard page
/// on each side, the first towards the origin and the last towards the end
/// of the address range.
pub open spec fn well_spaced<S>(es: Seq<MapEntry<S>>) -> bool {
    &&& forall|k: int|
        0 <= k < es.len() ==> (#[trigger] es[k]).span % 4096 == 0 && es[k].offset + es[k].span
            <= usize::MAX
    &&& forall|i: int|
        0 <= i <= es.len() ==> #[trigger] gap_floor(es, i) + PAGE_SIZE <= gap_ceiling(es, i)
}

/// Every base address is a multiple of the page size.
pub open spec fn all_aligned<S>(es: Seq<MapEntry<S>>) -> bool {
    forall|k: int| 0 <= k < es.len() ==> (#[trigger] es[k]).addr % 4096 == 0
}

/// Gap `i` has room for `span` bytes and a guard page on each side.
pub open spec fn gap_fits<S>(es: Seq<MapEntry<S>>, i: int, span: int) -> bool {
    gap_ceiling(es, i) - gap_floor(es, i) >= span + 2 * PAGE_SIZE
}

/// Gap `i` is the first, in ascending order of address, that fits `span`.
pub open spec fn is_first_fit<S>(es: Seq<MapEntry<S>>, i: int, span: int) -> bool {
    &&& 0 <= i <= es.len()
    &&& gap_fits(es, i, span)
    &&& forall|j: int| 0 <= j < i ==> !gap_fits(es, j, span)
}

/// No gap fits `span`.
pub open spec fn no_fit<S>(es: Seq<MapEntry<S>>, span: int) -> bool {
    forall|j: int| 0 <= j <= es.len() ==> !gap_fits(es, j, span)
}

/// `i` is where an entry with base `addr` belongs: behind every entry whose
/// base is at or below `addr`, before every entry whose base is above it.
pub open spec fn is_slot<S>(es: Seq<MapEntry<S>>, addr: int, i: int) -> bool {
    &&& 0 <= i <= es.len()
    &&& forall|k: int| 0 <= k < i ==> (#[trigger] es[k]).addr <= addr
    &&& forall|k: int| i <= k < es.len() ==> (#[trigger] es[k]).addr > addr
}

/// A region of `span` bytes at `start` keeps its distance from everything:
/// more than a page above the origin and above the end of each entry that
/// begins at or below `start`, and with a full page between its own end and
/// each entry that begins above `start`, and the end of the address range.
pub open spec fn can_place_at<S>(es: Seq<MapEntry<S>>, start: int, span: int) -> bool {
    &&& PAGE_SIZE < start
    &&& start + span + PAGE_SIZE <= usize::MAX
    &&& forall|k: int|
        0 <= k < es.len() && (#[trigger] es[k]).addr <= start ==> es[k].addr + es[k].span
            + PAGE_SIZE < start
    &&& forall|k: int|
        0 <= k < es.len() && (#[trigger] es[k]).addr > start ==> start + span + PAGE_SIZE
            <= es[k].addr
}

/// An earlier entry ends at least a page before a later one begins.
pub proof fn lemma_separated<S>(es: Seq<MapEntry<S>>, i: int, j: int)
    requires
        well_spaced(es),
        0 <= i < j < es.len(),
    ensures
        es[i].addr + es[i].span + PAGE_SIZE <= es[j].addr,
    decreases j - i,
{
    assert(gap_floor(es, j) + PAGE_SIZE <= gap_ceiling(es, j));
    if i < j - 1 {
        lemma_separated(es, i, j - 1);
    }
}

/// An entry put into a gap, a page or more from both edges, keeps the
/// invariant.
pub proof fn lemma_insert_well_spaced<S>(es: Seq<MapEntry<S>>, i: int, e: MapEntry<S>)
    requires
        well_spaced(es),
        0 <= i <= es.len(),
        e.span % 4096 == 0,
        e.offset + e.span <= usize::MAX,
        gap_floor(es, i) + PAGE_SIZE <= e.addr,
        e.addr + e.span + PAGE_SIZE <= gap_ceiling(es, i),
    ensures
        well_spaced(es.insert(i, e)),
{
    let out = es.insert(i, e);
    assert forall|k: int| 0 <= k < out.len() implies (#[trigger] out[k]).span % 4096 == 0
        && out[k].offset + out[k].span <= usize::MAX by {
        if k < i {
            assert(out[k] == es[k]);
        } else if k > i {
            assert(out[k] == es[k - 1]);
        }
    }
    assert forall|g: int| 0 <= g <= out.len() implies #[trigger] gap_floor(out, g) + PAGE_SIZE
        <= gap_ceiling(out, g) by {
        if g <= i {
            assert(gap_floor(es, g) + PAGE_SIZE <= gap_ceiling(es, g));
        } else {
            assert(gap_floor(es, g - 1) + PAGE_SIZE <= gap_ceiling(es, g - 1));
        }
    }
}

/// Taking an entry out keeps the invariant.
pub proof fn lemma_remove_well_spaced<S>(es: Seq<MapEntry<S>>, i: int)
    requires
        well_spaced(es),
        0 <= i < es.len(),
    ensures
        well_spaced(es.remove(i)),
{
    let out = es.remove(i);
    assert forall|k: int| 0 <= k < out.len() implies (#[trigger] out[k]).span % 4096 == 0
        && out[k].offset + out[k].span <= usize::MAX by {
        if k < i {
            assert(out[k] == es[k]);
        } else {
            assert(out[k] == es[k + 1]);
        }
    }
    assert forall|g: int| 0 <= g <= out.len() implies #[trigger] gap_floor(out, g) + PAGE_SIZE
        <= gap_ceiling(out, g) by {
        assert(gap_floor(es, i) + PAGE_SIZE <= gap_ceiling(es, i));
        assert(gap_floor(es, i + 1) + PAGE_SIZE <= gap_ceiling(es, i + 1));
        if g < i {
            assert(gap_floor(es, g) + PAGE_SIZE <= gap_ceiling(es, g));
        } else if g > i {
            assert(gap_floor(es, g + 1) + PAGE_SIZE <= gap_ceiling(es, g + 1));
        }
    }
}

/// With `i` the slot of `start`, the region can be placed exactly when it
/// keeps its distance from the two edges of gap `i`.
pub proof fn lemma_place_by_neighbours<S>(es: Seq<MapEntry<S>>, start: int, span: int, i: int)
    requires
        well_spaced(es),
        is_slot(es, start, i),
        span >= 0,
    ensures
        can_place_at(es, start, span) <==> (gap_floor(es, i) + PAGE_SIZE < start && start + span
            + PAGE_SIZE <= gap_ceiling(es, i)),
{
    if gap_floor(es, i) + PAGE_SIZE < start && start + span + PAGE_SIZE <= gap_ceiling(es, i) {
        assert(gap_floor(es, 0) + PAGE_SIZE <= gap_ceiling(es, 0));
        assert(gap_floor(es, es.len() as int) + PAGE_SIZE <= gap_ceiling(es, es.len() as int));
        assert forall|k: int| 0 <= k < es.len() && (#[trigger] es[k]).addr <= start implies es[k].addr
            + es[k].span + PAGE_SIZE < start by {
            if k < i - 1 {
                lemma_separated(es, k, i - 1);
            }
        }
        assert forall|k: int| 0 <= k < es.len() && (#[trigger] es[k]).addr > start implies start
            + span + PAGE_SIZE <= es[k].addr by {
            if k > i {
                lemma_separated(es, i, k);
            }
        }
    }
    if can_place_at(es, start, span) {
        if i > 0 {
            assert(es[i - 1].addr <= start);
        }
        if i < es.len() {
            assert(es[i].addr > start);
        }
    }
}

} // verus!
