//! One mapping, the page size, and the errors of the address space.

use crate::flags::FlagBuilder;
use std::sync::Arc;
use vstd::prelude::*;

verus! {

/// The size of a page, and the width of the guard that is kept free on each
/// side of every mapping.
pub const PAGE_SIZE: usize = 4096;

/// Why an operation on an address space was refused. A refused operation
/// leaves the space as it was.
#[derive(Clone, Copy, Debug, PartialEq, Eq, Structural)]
pub enum MapError {
    /// No gap is wide enough for the span and its two guard pages.
    NoSpace,
    /// The requested region overlaps a mapping or comes too close to one.
    RegionConflict,
    /// No mapping matches the address.
    NotFound,
    /// The access asks for a capability that the mapping does not grant.
    PermissionDenied,
}

impl MapError {
    /// The sentence that describes the error.
    pub open spec fn message_spec(self) -> Seq<char> {
        match self {
            MapError::NoSpace => "No memory chunk available."@,
            MapError::RegionConflict => "Insufficient free memory in desired region."@,
            MapError::NotFound => "No mapping with target address."@,
            MapError::PermissionDenied =>
                "Given access type is not allowed for the data source at target address."@,
        }
    }

    /// A sentence for the error, for a message or a log.
    pub fn message(&self) -> (r: &'static str)
        ensures
            r@ == self.message_spec(),
    {
        match self {
            MapError::NoSpace => "No memory chunk available.",
            MapError::RegionConflict => "Insufficient free memory in desired region.",
            MapError::NotFound => "No mapping with target address.",
            MapError::PermissionDenied =>
                "Given access type is not allowed for the data source at target address.",
        }
    }
}

/// One contiguous reservation: `span` bytes at address `addr`, backed by
/// `source` from byte `offset` on, with fixed permission flags.
///
/// The backing store is shared: other entries, in this or another address
/// space, may hold the same store.
pub struct MapEntry<S> {
    pub source: Arc<S>,
    pub offset: usize,
    pub span: usize,
    pub addr: usize,
    pub flags: FlagBuilder,
}

impl<S> MapEntry<S> {
    /// The first address past the entry.
    pub open spec fn end(self) -> int {
        self.addr + self.span
    }

    /// `a` lies in `[addr, addr + span)`.
    pub open spec fn covers(self, a: int) -> bool {
        self.addr <= a < self.addr + self.span
    }

    /// The entry with exactly these fields.
    #[must_use]
    pub fn new(source: Arc<S>, offset: usize, span: usize, addr: usize, flags: FlagBuilder) -> (e:
        MapEntry<S>)
        ensures
            e == (MapEntry { source, offset, span, addr, flags }),
    {
        MapEntry { source, offset, span, addr, flags }
    }
}

} // verus!
