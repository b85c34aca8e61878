//! The interface of the persistent key-value store behind an indexer.
use vstd::prelude::*;
use crate::data::{CellModel, Data};
use crate::errors::Error;
use crate::indexer::Entry;
use crate::key::Key;

verus! {

/// Single-cell writes as mathematical values: the key's bytes and the cell.
pub type ColumnWrites = Seq<(Seq<u8>, CellModel)>;

/// Record writes as mathematical values: the key's bytes and both cells.
pub type RecordWrites = Seq<(Seq<u8>, (CellModel, CellModel))>;

/// A durable map from key bytes to serialized values. Implementations own
/// the storage engine and the encoding of records and cells.
pub trait KVStore: Sized {
    /// The cells handed to `save_col` so far, each with the bytes of its
    /// key, in the order of the calls.
    spec fn cols(&self) -> ColumnWrites;

    /// The records handed to `save` so far, each with the bytes of its key,
    /// in the order of the calls.
    spec fn records(&self) -> RecordWrites;

    /// Opens, or creates, the store at `file_path`.
    fn initialize(file_path: &str) -> (r: Self)
        ensures
            r.cols() == ColumnWrites::empty(),
            r.records() == RecordWrites::empty(),
    ;

    /// Writes a record under `k`; true when the store accepted it.
    fn save(&mut self, k: Key, v: Entry) -> (r: bool)
        ensures
            final(self).records() == old(self).records().push((k@, v@)),
            final(self).cols() == old(self).cols(),
    ;

    /// Writes a single cell under `k`; true when the store accepted it.
    fn save_col(&mut self, k: Key, v: Data) -> (r: bool)
        ensures
            final(self).cols() == old(self).cols().push((k@, v@)),
            final(self).records() == old(self).records(),
    ;

    /// Reads back what is stored under `k`, if anything.
    fn find(&self, k: Key) -> Result<Option<String>, Error>;
}

} // verus!
