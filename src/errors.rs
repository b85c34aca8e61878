//! Errors reported by a store.
use vstd::prelude::*;

verus! {

/// A failure of the backing store while reading.
#[derive(PartialEq, Eq, Structural, Debug, Clone, Copy)]
pub enum Error {
    InternalError,
}

} // verus!
