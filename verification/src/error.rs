//! The ways in which access to contract state fails.

use vstd::prelude::*;

verus! {

/// Why a read of contract state failed.
#[derive(Clone, Copy, PartialEq, Eq, Structural, Debug)]
pub enum StateError {
    /// The state source did not answer the read.
    SourceUnavailable,
    /// A cell that was expected in the cache is not there.
    CacheIntegrityViolation,
}

} // verus!
