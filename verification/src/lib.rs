//! A simulated virtual address space: page-aligned, guard-separated mappings
//! of shared backing stores, with first-fit and fixed-address placement,
//! removal, and permission-checked address resolution.

pub mod entry;
pub mod flags;
pub mod laws;
pub mod layout;
pub mod space;

pub use entry::{MapEntry, MapError, PAGE_SIZE};
pub use flags::FlagBuilder;
pub use space::AddressSpace;
