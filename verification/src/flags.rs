//! Permission flags: six independent capability bits and their algebra.

use vstd::prelude::*;

verus! {

/// The capabilities of a mapping, or the capabilities that an access asks for.
///
/// A value is built from [`FlagBuilder::new`] or one of the single-flag
/// constructors and then refined with the toggles:
/// `FlagBuilder::new().toggle_read().toggle_write()`.
#[derive(Clone, Copy, Debug, PartialEq, Eq, Structural)]
#[allow(clippy::struct_excessive_bools)]
pub struct FlagBuilder {
    pub read: bool,
    pub write: bool,
    pub execute: bool,
    pub cow: bool,
    pub private: bool,
    pub shared: bool,
}

impl FlagBuilder {
    /// The value with every flag off.
    pub open spec fn none() -> Self {
        FlagBuilder {
            read: false,
            write: false,
            execute: false,
            cow: false,
            private: false,
            shared: false,
        }
    }

    /// Flag-wise disjunction.
    pub open spec fn union(self, other: Self) -> Self {
        FlagBuilder {
            read: self.read || other.read,
            write: self.write || other.write,
            execute: self.execute || other.execute,
            cow: self.cow || other.cow,
            private: self.private || other.private,
            shared: self.shared || other.shared,
        }
    }

    /// The flags of `self` that `other` does not have.
    pub open spec fn difference(self, other: Self) -> Self {
        FlagBuilder {
            read: self.read && !other.read,
            write: self.write && !other.write,
            execute: self.execute && !other.execute,
            cow: self.cow && !other.cow,
            private: self.private && !other.private,
            shared: self.shared && !other.shared,
        }
    }

    /// Every flag of `self` is also a flag of `other`.
    pub open spec fn subset_of(self, other: Self) -> bool {
        &&& self.read ==> other.read
        &&& self.write ==> other.write
        &&& self.execute ==> other.execute
        &&& self.cow ==> other.cow
        &&& self.private ==> other.private
        &&& self.shared ==> other.shared
    }

    /// The combination can be attached to a mapping: it is not both private
    /// and shared, and not both copy-on-write and writable.
    pub open spec fn valid(self) -> bool {
        !(self.private && self.shared) && !(self.cow && self.write)
    }

    /// Of read, write and execute, `self` has each one that `wanted` has.
    pub open spec fn permits(self, wanted: Self) -> bool {
        &&& wanted.read ==> self.read
        &&& wanted.write ==> self.write
        &&& wanted.execute ==> self.execute
    }

    /// Create a new `FlagBuilder` with all flags toggled off.
    #[must_use]
    pub fn new() -> (r: Self)
        ensures
            r == Self::none(),
    {
        FlagBuilder {
            read: false,
            write: false,
            execute: false,
            cow: false,
            private: false,
            shared: false,
        }
    }

    /// Turn on only the read flag.
    #[must_use]
    pub fn read() -> (r: Self)
        ensures
            r == (FlagBuilder { read: true, ..Self::none() }),
    {
        FlagBuilder { read: true, ..Self::new() }
    }

    /// Toggle the read flag.
    #[must_use]
    pub fn toggle_read(self) -> (r: Self)
        ensures
            r == (FlagBuilder { read: !self.read, ..self }),
    {
        FlagBuilder { read: !self.read, ..self }
    }

    /// Turn on only the write flag.
    #[must_use]
    pub fn write() -> (r: Self)
        ensures
            r == (FlagBuilder { write: true, ..Self::none() }),
    {
        FlagBuilder { write: true, ..Self::new() }
    }

    /// Toggle the write flag.
    #[must_use]
    pub fn toggle_write(self) -> (r: Self)
        ensures
            r == (FlagBuilder { write: !self.write, ..self }),
    {
        FlagBuilder { write: !self.write, ..self }
    }

    /// Turn on only the execute flag.
    #[must_use]
    pub fn execute() -> (r: Self)
        ensures
            r == (FlagBuilder { execute: true, ..Self::none() }),
    {
        FlagBuilder { execute: true, ..Self::new() }
    }

    /// Toggle the execute flag.
    #[must_use]
    pub fn toggle_execute(self) -> (r: Self)
        ensures
            r == (FlagBuilder { execute: !self.execute, ..self }),
    {
        FlagBuilder { execute: !self.execute, ..self }
    }

    /// Turn on only the copy-on-write flag.
    #[must_use]
    pub fn cow() -> (r: Self)
        ensures
            r == (FlagBuilder { cow: true, ..Self::none() }),
    {
        FlagBuilder { cow: true, ..Self::new() }
    }

    /// Toggle the copy-on-write flag.
    #[must_use]
    pub fn toggle_cow(self) -> (r: Self)
        ensures
            r == (FlagBuilder { cow: !self.cow, ..self }),
    {
        FlagBuilder { cow: !self.cow, ..self }
    }

    /// Turn on only the private flag.
    #[must_use]
    pub fn private() -> (r: Self)
        ensures
            r == (FlagBuilder { private: true, ..Self::none() }),
    {
        FlagBuilder { private: true, ..Self::new() }
    }

    /// Toggle the private flag.
    #[must_use]
    pub fn toggle_private(self) -> (r: Self)
        ensures
            r == (FlagBuilder { private: !self.private, ..self }),
    {
        FlagBuilder { private: !self.private, ..self }
    }

    /// Turn on only the shared flag.
    #[must_use]
    pub fn shared() -> (r: Self)
        ensures
            r == (FlagBuilder { shared: true, ..Self::none() }),
    {
        FlagBuilder { shared: true, ..Self::new() }
    }

    /// Toggle the shared flag.
    #[must_use]
    pub fn toggle_shared(self) -> (r: Self)
        ensures
            r == (FlagBuilder { shared: !self.shared, ..self }),
    {
        FlagBuilder { shared: !self.shared, ..self }
    }

    /// Combine two `FlagBuilder`s by boolean or-ing each of their flags.
    ///
    /// The name reads well at the call site: `read.and(execute)` has the
    /// read flag and the execute flag.
    #[must_use]
    pub fn and(self, other: Self) -> (r: Self)
        ensures
            r == self.union(other),
    {
        FlagBuilder {
            read: self.read || other.read,
            write: self.write || other.write,
            execute: self.execute || other.execute,
            cow: self.cow || other.cow,
            private: self.private || other.private,
            shared: self.shared || other.shared,
        }
    }

    /// Turn off all flags in `self` that are on in `other`.
    ///
    /// With `self` the access asked for and `other` the access granted, the
    /// result holds what was asked for and is not granted.
    #[must_use]
    pub fn but_not(self, other: Self) -> (r: Self)
        ensures
            r == self.difference(other),
    {
        FlagBuilder {
            read: self.read && !other.read,
            write: self.write && !other.write,
            execute: self.execute && !other.execute,
            cow: self.cow && !other.cow,
            private: self.private && !other.private,
            shared: self.shared && !other.shared,
        }
    }

    /// Whether the combination may be attached to a mapping.
    ///
    /// Private and shared exclude each other, and a copy-on-write mapping
    /// stays unwritable until the copy is made. The address space does not
    /// test this when a mapping is added: the caller does.
    pub fn is_valid(&self) -> (r: bool)
        ensures
            r == self.valid(),
    {
        if self.private && self.shared {
            return false;
        }
        if self.cow && self.write {
            return false;
        }
        true
    }

    /// Whether these flags grant the read, write and execute access that
    /// `access_perms` asks for.
    ///
    /// Only those three flags are compared. Address resolution is stricter:
    /// it refuses an access that asks for any of the six flags that the
    /// mapping lacks.
    pub fn check_access_perms(&self, access_perms: FlagBuilder) -> (r: bool)
        ensures
            r == self.permits(access_perms),
    {
        if access_perms.read && !self.read || access_perms.write && !self.write
            || access_perms.execute && !self.execute {
            return false;
        }
        true
    }
}

impl Default for FlagBuilder {
    fn default() -> (r: Self)
        ensures
            r == FlagBuilder::none(),
    {
        FlagBuilder::new()
    }
}

/// Nothing is left of `wanted` once `granted` is taken away exactly when
/// `wanted` is a subset of `granted`.
pub proof fn lemma_difference_empty_iff_subset(wanted: FlagBuilder, granted: FlagBuilder)
    ensures
        wanted.difference(granted) == FlagBuilder::none() <==> wanted.subset_of(granted),
{
}

/// An access that is a subset of the granted flags also passes the
/// read/write/execute check.
pub proof fn lemma_subset_implies_permits(wanted: FlagBuilder, granted: FlagBuilder)
    requires
        wanted.subset_of(granted),
    ensures
        granted.permits(wanted),
{
}

/// Flags that are both private and shared, or both copy-on-write and
/// writable, are never valid, whatever the other flags are.
pub proof fn lemma_conflicting_flags_invalid(f: FlagBuilder)
    ensures
        f.private && f.shared ==> !f.valid(),
        f.cow && f.write ==> !f.valid(),
        !(f.private && f.shared) && !(f.cow && f.write) ==> f.valid(),
{
}

/// Union with the empty value changes nothing, union is commutative, and
/// taking away what was just added leaves no more than there was.
pub proof fn lemma_union_difference(a: FlagBuilder, b: FlagBuilder)
    ensures
        a.union(FlagBuilder::none()) == a,
        a.union(b) == b.union(a),
        a.union(b).difference(b) == a.difference(b),
        a.difference(b).subset_of(a),
        a.subset_of(a.union(b)),
{
}

} // verus!
