//! A small persistent key/value configuration layer over a path-addressed
//! storage medium.
//!
//! Two primitives are offered: *fields* (named text values stored as the
//! content of one file each) and *flags* (named booleans encoded purely by
//! file presence). They are layered over a backend strategy that knows how
//! to locate a storage root, initialize it, and — for journaled media —
//! durably commit pending writes.

use vstd::prelude::*;

pub mod error;
pub mod holder;
pub mod laws;
pub mod medium;
pub mod paths;
pub mod storage;
pub mod value;

pub use error::ConfigError;
pub use holder::StorageHolder;
pub use medium::AreaView;
pub use medium::StorageArea;
pub use storage::ConfigStorage;
pub use storage::DebugSavedataStorage;
pub use storage::SdCardStorage;
pub use storage::UserHandle;
pub use value::ConfigValue;

verus! {

/// Counts one more commit, saturating at the counter's ceiling.
pub open spec fn next_count(c: u64) -> u64 {
    if c == u64::MAX {
        c
    } else {
        (c + 1) as u64
    }
}

} // verus!
