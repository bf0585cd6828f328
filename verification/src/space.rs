//! The address space: an ordered sequence of mappings with a guard page
//! around each, and the operations that place, remove and resolve them.

use crate::entry::{MapEntry, MapError, PAGE_SIZE};
use crate::flags::FlagBuilder;
use crate::layout::{
    all_aligned, can_place_at, gap_ceiling, gap_floor, gap_fits, is_first_fit, is_slot,
    lemma_insert_well_spaced, lemma_place_by_neighbours, lemma_remove_well_spaced,
    lemma_separated, no_fit, round_up_spec, well_spaced,
};
use std::sync::Arc;
use vstd::prelude::*;

verus! {

/// An address space.
///
/// Its view is the sequence of its entries in ascending order of address.
/// A space is made empty, and every operation keeps its sequence
/// [`well_spaced`].
pub struct AddressSpace<S> {
    name: String,
    mappings: Vec<MapEntry<S>>,
}

impl<S> View for AddressSpace<S> {
    type V = Seq<MapEntry<S>>;

    closed spec fn view(&self) -> Seq<MapEntry<S>> {
        self.mappings@
    }
}

/// `Arc::clone`: a second handle to the allocation that `handle` points to.
/// The contract claims that the new handle stands for the same value.
#[verifier::external_body]
fn share<S>(handle: &Arc<S>) -> (r: Arc<S>)
    ensures
        r == *handle,
{
    Arc::clone(handle)
}

impl<S> AddressSpace<S> {
    /// The entries obey the layout rules: see [`well_spaced`].
    pub open spec fn wf(&self) -> bool {
        well_spaced(self@)
    }

    /// The name that the space was made with. It serves diagnostics only.
    pub closed spec fn name_view(&self) -> Seq<char> {
        self.name@
    }

    /// An empty address space with the given name.
    #[must_use]
    pub fn new(name: &str) -> (s: Self)
        ensures
            s@ == Seq::<MapEntry<S>>::empty(),
            s.name_view() == name@,
            s.wf(),
    {
        AddressSpace { name: name.to_owned(), mappings: Vec::new() }
    }

    /// `addr` rounded up to the next multiple of the page size.
    pub fn round_up(addr: usize) -> (r: usize)
        requires
            round_up_spec(addr as int) <= usize::MAX,
        ensures
            r == round_up_spec(addr as int),
    {
        let floor: usize = addr / PAGE_SIZE;
        if floor * PAGE_SIZE == addr {
            addr
        } else {
            (floor + 1) * PAGE_SIZE
        }
    }

    /// Whether `span` bytes from byte `offset` on, rounded up to whole
    /// pages, end within what a machine word can count. The two operations
    /// that add a mapping ask this of their caller.
    pub fn source_range_fits(offset: usize, span: usize) -> (r: bool)
        ensures
            r == (offset + round_up_spec(span as int) <= usize::MAX),
    {
        let pages: usize = span / PAGE_SIZE;
        let rest: usize = span % PAGE_SIZE;
        let whole: usize = pages * PAGE_SIZE;
        if rest == 0 {
            offset <= usize::MAX - whole
        } else {
            whole <= usize::MAX - PAGE_SIZE && offset <= usize::MAX - PAGE_SIZE - whole
        }
    }

    /// Add a mapping of `span` bytes of `source`, from byte `offset` on,
    /// wherever there is room, and return its base address.
    ///
    /// The span is rounded up to whole pages. The gaps are tried in
    /// ascending order: from the origin to the first entry, between
    /// neighbours, and from the last entry to the end of the address range.
    /// The mapping goes into the first gap that holds it with a guard page
    /// on each side, one page above the gap's lower edge.
    ///
    /// The flags are stored as given; whether they are valid is for the
    /// caller to test. The mapped bytes of the store must have offsets that
    /// fit a machine word: see [`AddressSpace::source_range_fits`].
    ///
    /// Where every base in the space is a multiple of the page size, so is
    /// the one returned.
    ///
    /// # Errors
    /// [`MapError::NoSpace`] if no gap is wide enough.
    pub fn add_mapping(
        &mut self,
        source: Arc<S>,
        offset: usize,
        span: usize,
        flags: FlagBuilder,
    ) -> (res: Result<usize, MapError>)
        requires
            old(self).wf(),
            offset + round_up_spec(span as int) <= usize::MAX,
        ensures
            final(self).wf(),
            final(self).name_view() == old(self).name_view(),
            match res {
                Ok(addr) => exists|i: int|
                    {
                        &&& is_first_fit(old(self)@, i, round_up_spec(span as int))
                        &&& addr == gap_floor(old(self)@, i) + PAGE_SIZE
                        &&& #[trigger] old(self)@.insert(
                            i,
                            MapEntry {
                                source,
                                offset,
                                span: round_up_spec(span as int) as usize,
                                addr,
                                flags,
                            },
                        ) == final(self)@
                    },
                Err(e) => {
                    &&& e == MapError::NoSpace
                    &&& no_fit(old(self)@, round_up_spec(span as int))
                    &&& final(self)@ == old(self)@
                },
            },
            all_aligned(old(self)@) ==> all_aligned(final(self)@) && (res matches Ok(addr)
                ==> addr % 4096 == 0),
    {
        let rounded: usize = Self::round_up(span);
        let n: usize = self.mappings.len();
        let mut i: usize = 0;
        let mut floor: usize = 0;
        loop
            invariant
                well_spaced(self.mappings@),
                *self == *old(self),
                n == self.mappings@.len(),
                0 <= i <= n,
                floor == gap_floor(self.mappings@, i as int),
                forall|j: int| 0 <= j < i ==> !gap_fits(self.mappings@, j, rounded as int),
                rounded == round_up_spec(span as int),
                offset + rounded <= usize::MAX,
            decreases n - i,
        {
            let ceiling: usize = if i < n {
                self.mappings[i].addr
            } else {
                usize::MAX
            };
            assert(gap_floor(self.mappings@, i as int) + PAGE_SIZE <= gap_ceiling(
                self.mappings@,
                i as int,
            ));
            let width: usize = ceiling - floor;
            if width >= 2 * PAGE_SIZE && width - 2 * PAGE_SIZE >= rounded {
                let addr: usize = floor + PAGE_SIZE;
                let entry = MapEntry::new(source, offset, rounded, addr, flags);
                proof {
                    lemma_insert_well_spaced(self.mappings@, i as int, entry);
                    if all_aligned(self.mappings@) {
                        let out = self.mappings@.insert(i as int, entry);
                        assert(out.len() == self.mappings@.len() + 1);
                        if i > 0 {
                            assert(self.mappings@[i - 1].addr % 4096 == 0);
                            assert(self.mappings@[i - 1].span % 4096 == 0);
                        }
                        assert forall|k: int| 0 <= k < out.len() implies (#[trigger] out[k]).addr
                            % 4096 == 0 by {
                            if k < i {
                                assert(out[k] == self.mappings@[k]);
                            } else if k > i {
                                assert(out[k] == self.mappings@[k - 1]);
                            }
                        }
                    }
                }
                self.mappings.insert(i, entry);
                assert(is_first_fit(old(self)@, i as int, rounded as int));
                assert(old(self)@.insert(i as int, entry) == self@);
                return Ok(addr);
            }
            if i == n {
                return Err(MapError::NoSpace);
            }
            assert(gap_floor(self.mappings@, i + 1) + PAGE_SIZE <= gap_ceiling(
                self.mappings@,
                i + 1,
            ));
            floor = self.mappings[i].addr + self.mappings[i].span;
            i += 1;
        }
    }

    /// Add a mapping of `span` bytes of `source`, from byte `offset` on, at
    /// exactly `start`.
    ///
    /// The span is rounded up to whole pages. The region must lie more than
    /// a page above the origin and above the end of the mapping before it,
    /// and must leave a full page between its end and the mapping after it,
    /// and the end of the address range. The base is `start` as given: it is
    /// a multiple of the page size only if `start` is.
    ///
    /// The flags are stored as given; whether they are valid is for the
    /// caller to test. The mapped bytes of the store must have offsets that
    /// fit a machine word: see [`AddressSpace::source_range_fits`].
    ///
    /// # Errors
    /// [`MapError::RegionConflict`] if the region overlaps a mapping or
    /// comes too close to one.
    pub fn add_mapping_at(
        &mut self,
        source: Arc<S>,
        offset: usize,
        span: usize,
        start: usize,
        flags: FlagBuilder,
    ) -> (res: Result<(), MapError>)
        requires
            old(self).wf(),
            offset + round_up_spec(span as int) <= usize::MAX,
        ensures
            final(self).wf(),
            final(self).name_view() == old(self).name_view(),
            match res {
                Ok(()) => {
                    &&& can_place_at(old(self)@, start as int, round_up_spec(span as int))
                    &&& exists|i: int|
                        {
                            &&& is_slot(old(self)@, start as int, i)
                            &&& #[trigger] old(self)@.insert(
                                i,
                                MapEntry {
                                    source,
                                    offset,
                                    span: round_up_spec(span as int) as usize,
                                    addr: start,
                                    flags,
                                },
                            ) == final(self)@
                        }
                },
                Err(e) => {
                    &&& e == MapError::RegionConflict
                    &&& !can_place_at(old(self)@, start as int, round_up_spec(span as int))
                    &&& final(self)@ == old(self)@
                },
            },
            all_aligned(old(self)@) && start % 4096 == 0 ==> all_aligned(final(self)@),
    {
        let rounded: usize = Self::round_up(span);
        let n: usize = self.mappings.len();
        let mut i: usize = 0;
        let mut floor: usize = 0;
        while i < n && self.mappings[i].addr <= start
            invariant
                well_spaced(self.mappings@),
                *self == *old(self),
                n == self.mappings@.len(),
                0 <= i <= n,
                floor == gap_floor(self.mappings@, i as int),
                forall|k: int| 0 <= k < i ==> (#[trigger] self.mappings@[k]).addr <= start,
            decreases n - i,
        {
            assert(gap_floor(self.mappings@, i + 1) + PAGE_SIZE <= gap_ceiling(
                self.mappings@,
                i + 1,
            ));
            floor = self.mappings[i].addr + self.mappings[i].span;
            i += 1;
        }
        let ceiling: usize = if i < n {
            self.mappings[i].addr
        } else {
            usize::MAX
        };
        proof {
            assert(gap_floor(self.mappings@, i as int) + PAGE_SIZE <= gap_ceiling(
                self.mappings@,
                i as int,
            ));
            assert forall|k: int| i <= k < n implies (#[trigger] self.mappings@[k]).addr
                > start by {
                if k > i {
                    lemma_separated(self.mappings@, i as int, k);
                }
            }
            lemma_place_by_neighbours(self.mappings@, start as int, rounded as int, i as int);
        }
        if floor + PAGE_SIZE >= start || ceiling < start || ceiling - start < PAGE_SIZE || ceiling
            - start - PAGE_SIZE < rounded {
            Err(MapError::RegionConflict)
        } else {
            let entry = MapEntry::new(source, offset, rounded, start, flags);
            proof {
                lemma_insert_well_spaced(self.mappings@, i as int, entry);
                if all_aligned(self.mappings@) && start % 4096 == 0 {
                    let out = self.mappings@.insert(i as int, entry);
                        assert(out.len() == self.mappings@.len() + 1);
                    assert forall|k: int| 0 <= k < out.len() implies (#[trigger] out[k]).addr
                        % 4096 == 0 by {
                        if k < i {
                            assert(out[k] == self.mappings@[k]);
                        } else if k > i {
                            assert(out[k] == self.mappings@[k - 1]);
                        }
                    }
                }
            }
            self.mappings.insert(i, entry);
            Ok(())
        }
    }

    /// Remove the mapping whose base address is exactly `start`.
    ///
    /// The mapping is found by its address alone; `source` is not compared.
    /// The store itself is untouched: the space only gives up its handle.
    ///
    /// # Errors
    /// [`MapError::NotFound`] if no mapping begins at `start`.
    pub fn remove_mapping(&mut self, source: Arc<S>, start: usize) -> (res: Result<(), MapError>)
        requires
            old(self).wf(),
        ensures
            final(self).wf(),
            final(self).name_view() == old(self).name_view(),
            match res {
                Ok(()) => exists|i: int|
                    {
                        &&& 0 <= i < old(self)@.len()
                        &&& old(self)@[i].addr == start
                        &&& #[trigger] old(self)@.remove(i) == final(self)@
                    },
                Err(e) => {
                    &&& e == MapError::NotFound
                    &&& forall|k: int|
                        0 <= k < old(self)@.len() ==> (#[trigger] old(self)@[k]).addr != start
                    &&& final(self)@ == old(self)@
                },
            },
            all_aligned(old(self)@) ==> all_aligned(final(self)@),
    {
        let n: usize = self.mappings.len();
        let mut i: usize = 0;
        while i < n && self.mappings[i].addr != start
            invariant
                *self == *old(self),
                n == self.mappings@.len(),
                0 <= i <= n,
                forall|k: int| 0 <= k < i ==> (#[trigger] self.mappings@[k]).addr != start,
            decreases n - i,
        {
            i += 1;
        }
        if i == n {
            Err(MapError::NotFound)
        } else {
            proof {
                lemma_remove_well_spaced(self.mappings@, i as int);
                if all_aligned(self.mappings@) {
                    let out = self.mappings@.remove(i as int);
                    assert forall|k: int| 0 <= k < out.len() implies (#[trigger] out[k]).addr
                        % 4096 == 0 by {
                        if k < i {
                            assert(out[k] == self.mappings@[k]);
                        } else {
                            assert(out[k] == self.mappings@[k + 1]);
                        }
                    }
                }
            }
            self.mappings.remove(i);
            Ok(())
        }
    }

    /// Look up the store, and the offset within it, that back `addr`, for an
    /// access of the given kind.
    ///
    /// The mapping is the one that covers `addr`. The access is allowed if
    /// every one of the six flags that `access_type` has is a flag of the
    /// mapping. The offset is the mapping's own offset plus the distance of
    /// `addr` from the mapping's base.
    ///
    /// # Errors
    /// [`MapError::NotFound`] if no mapping covers `addr`;
    /// [`MapError::PermissionDenied`] if the mapping that covers it does not
    /// grant the access.
    pub fn get_source_for_addr(&self, addr: usize, access_type: FlagBuilder) -> (res: Result<
        (Arc<S>, usize),
        MapError,
    >)
        requires
            self.wf(),
        ensures
            match res {
                Ok((source, offset)) => exists|i: int|
                    {
                        &&& 0 <= i < self@.len()
                        &&& (#[trigger] self@[i]).covers(addr as int)
                        &&& access_type.subset_of(self@[i].flags)
                        &&& source == self@[i].source
                        &&& offset == self@[i].offset + (addr - self@[i].addr)
                    },
                Err(MapError::NotFound) => forall|k: int|
                    0 <= k < self@.len() ==> !(#[trigger] self@[k]).covers(addr as int),
                Err(MapError::PermissionDenied) => exists|i: int|
                    {
                        &&& 0 <= i < self@.len()
                        &&& (#[trigger] self@[i]).covers(addr as int)
                        &&& !access_type.subset_of(self@[i].flags)
                    },
                Err(_) => false,
            },
    {
        match self.get_mapping_for_addr(addr) {
            Err(e) => Err(e),
            Ok(mapping) => {
                let but_not_flags = access_type.but_not(mapping.flags);
                let any_disallowed = but_not_flags.read || but_not_flags.write
                    || but_not_flags.execute || but_not_flags.cow || but_not_flags.private
                    || but_not_flags.shared;
                if any_disallowed {
                    Err(MapError::PermissionDenied)
                } else {
                    Ok((share(&mapping.source), mapping.offset + (addr - mapping.addr)))
                }
            },
        }
    }

    /// The mapping that covers `addr`: the one with the greatest base at or
    /// below `addr`, if `addr` lies within its span.
    ///
    /// # Errors
    /// [`MapError::NotFound`] if no mapping covers `addr`.
    pub fn get_mapping_for_addr(&self, addr: usize) -> (res: Result<&MapEntry<S>, MapError>)
        requires
            self.wf(),
        ensures
            match res {
                Ok(entry) => exists|i: int|
                    {
                        &&& 0 <= i < self@.len()
                        &&& (#[trigger] self@[i]).covers(addr as int)
                        &&& *entry == self@[i]
                    },
                Err(e) => {
                    &&& e == MapError::NotFound
                    &&& forall|k: int|
                        0 <= k < self@.len() ==> !(#[trigger] self@[k]).covers(addr as int)
                },
            },
    {
        let n: usize = self.mappings.len();
        let mut i: usize = 0;
        while i < n && self.mappings[i].addr <= addr
            invariant
                n == self.mappings@.len(),
                0 <= i <= n,
                forall|k: int| 0 <= k < i ==> (#[trigger] self.mappings@[k]).addr <= addr,
            decreases n - i,
        {
            i += 1;
        }
        proof {
            assert forall|k: int| 0 <= k < n && k != i - 1 implies !(#[trigger] self.mappings@[k]).covers(
                addr as int,
            ) by {
                if k < i - 1 {
                    lemma_separated(self.mappings@, k, i - 1);
                } else if k > i {
                    lemma_separated(self.mappings@, i as int, k);
                }
            }
        }
        if i == 0 {
            return Err(MapError::NotFound);
        }
        let entry = &self.mappings[i - 1];
        if addr - entry.addr >= entry.span {
            Err(MapError::NotFound)
        } else {
            Ok(entry)
        }
    }
}

} // verus!
