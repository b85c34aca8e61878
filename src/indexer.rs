//! Records and the indexer that keeps two column indexes beside a store.
use vstd::prelude::*;
use crate::data::{CellModel, Data};
use crate::db::{KVStore, RecordWrites};
use crate::index::{index_insert, index_put, index_view, strictly_sorted, EntryModel};
use crate::key::Key;

verus! {

/// A record: a string-column cell and a number-column cell.
#[derive(Clone, Debug)]
pub struct Entry {
    string_col: Data,
    num_col: Data,
}

impl View for Entry {
    type V = (CellModel, CellModel);

    closed spec fn view(&self) -> (CellModel, CellModel) {
        (self.string_col@, self.num_col@)
    }
}

impl Entry {
    /// The record with the given column cells.
    pub fn new(str_col: Data, number_col: Data) -> (r: Entry)
        ensures
            r@ == (str_col@, number_col@),
    {
        Entry { string_col: str_col, num_col: number_col }
    }

    /// The string-column cell.
    pub fn string_col(&self) -> (r: &Data)
        ensures
            r@ == self@.0,
    {
        &self.string_col
    }

    /// The number-column cell.
    pub fn num_col(&self) -> (r: &Data)
        ensures
            r@ == self@.1,
    {
        &self.num_col
    }

    /// A copy of this record.
    pub fn duplicate(&self) -> (r: Entry)
        ensures
            r@ == self@,
    {
        Entry { string_col: self.string_col.duplicate(), num_col: self.num_col.duplicate() }
    }
}

/// Copies an index, entry by entry.
fn copy_index(idx: &Vec<(Data, Key)>) -> (r: Vec<(Data, Key)>)
    ensures
        index_view(r@) == index_view(idx@),
{
    let mut r: Vec<(Data, Key)> = Vec::new();
    let mut i: usize = 0;
    while i < idx.len()
        invariant
            i <= idx@.len(),
            index_view(r@) == index_view(idx@).take(i as int),
        decreases idx@.len() - i,
    {
        let cell = idx[i].0.duplicate();
        let key = idx[i].1.duplicate();
        let ghost prev = r@;
        r.push((cell, key));
        proof {
            assert(index_view(r@) =~= index_view(prev).push((cell@, key@)));
            assert(index_view(r@) =~= index_view(idx@).take(i as int + 1));
        }
        i = i + 1;
    }
    proof {
        assert(index_view(idx@).take(i as int) =~= index_view(idx@));
    }
    r
}

/// The single-cell writes that export an index: each cell under the key
/// it maps to, in index order.
pub open spec fn column_writes(s: Seq<EntryModel>) -> Seq<(Seq<u8>, CellModel)> {
    s.map_values(|e: EntryModel| (e.1, e.0))
}

/// Writes each cell of an index under its key into `db`, in index order.
/// A refused write does not stop the export.
fn write_column<S: KVStore>(db: &mut S, idx: &Vec<(Data, Key)>)
    ensures
        final(db).cols() == old(db).cols() + column_writes(index_view(idx@)),
        final(db).records() == old(db).records(),
{
    let mut i: usize = 0;
    while i < idx.len()
        invariant
            i <= idx@.len(),
            db.cols() == old(db).cols() + column_writes(index_view(idx@)).take(i as int),
            db.records() == old(db).records(),
        decreases idx@.len() - i,
    {
        let _ = db.save_col(idx[i].1.duplicate(), idx[i].0.duplicate());
        proof {
            assert(column_writes(index_view(idx@)).take(i as int + 1) =~= column_writes(
                index_view(idx@),
            ).take(i as int).push((idx@[i as int].1@, idx@[i as int].0@)));
        }
        i = i + 1;
    }
    proof {
        assert(column_writes(index_view(idx@)).take(i as int) =~= column_writes(
            index_view(idx@),
        ));
    }
}

/// A primary store of records with an ordered index for each column. Each
/// index maps a cell value to the key of the last record stored with it.
pub struct Indexer<S> {
    db: S,
    str_col_indexer: Vec<(Data, Key)>,
    num_col_indexer: Vec<(Data, Key)>,
}

impl<S: KVStore> Indexer<S> {
    /// The string-column index, in ascending cell order.
    pub closed spec fn string_index(&self) -> Seq<EntryModel> {
        index_view(self.str_col_indexer@)
    }

    /// The number-column index, in ascending cell order.
    pub closed spec fn number_index(&self) -> Seq<EntryModel> {
        index_view(self.num_col_indexer@)
    }

    /// The records handed to the store so far, in the order of the calls.
    pub closed spec fn stored(&self) -> RecordWrites {
        self.db.records()
    }

    /// Both indexes are strictly sorted by cell.
    pub open spec fn wf(&self) -> bool {
        &&& strictly_sorted(self.string_index())
        &&& strictly_sorted(self.number_index())
    }

    /// An indexer over the store at `db_path`, with both indexes empty.
    pub fn new(db_path: &str) -> (r: Self)
        ensures
            r.wf(),
            r.string_index() == Seq::<EntryModel>::empty(),
            r.number_index() == Seq::<EntryModel>::empty(),
    {
        let r = Indexer {
            db: S::initialize(db_path),
            str_col_indexer: Vec::new(),
            num_col_indexer: Vec::new(),
        };
        proof {
            assert(r.string_index() =~= Seq::<EntryModel>::empty());
            assert(r.number_index() =~= Seq::<EntryModel>::empty());
        }
        r
    }

    /// Stores `value` under `key`, then maps each of its cells to `key` in
    /// the column's index. When the store refuses the write, both indexes
    /// stay as they were and the result is false.
    pub fn entry(&mut self, key: Key, value: Entry) -> (r: bool)
        requires
            old(self).wf(),
        ensures
            final(self).wf(),
            final(self).stored() == old(self).stored().push((key@, value@)),
            r ==> final(self).string_index() == index_insert(
                old(self).string_index(),
                value@.0,
                key@,
            ),
            r ==> final(self).number_index() == index_insert(
                old(self).number_index(),
                value@.1,
                key@,
            ),
            !r ==> final(self).string_index() == old(self).string_index(),
            !r ==> final(self).number_index() == old(self).number_index(),
    {
        let saved = self.db.save(key.duplicate(), value.duplicate());
        self.apply_save(saved, key, value)
    }

    /// Acts on the store's answer to writing `value` under `key`: when it was
    /// accepted, maps each cell of `value` to `key` in its column's index;
    /// otherwise leaves both indexes alone. Returns the answer.
    pub fn apply_save(&mut self, saved: bool, key: Key, value: Entry) -> (r: bool)
        requires
            old(self).wf(),
        ensures
            r == saved,
            final(self).wf(),
            final(self).stored() == old(self).stored(),
            saved ==> final(self).string_index() == index_insert(
                old(self).string_index(),
                value@.0,
                key@,
            ),
            saved ==> final(self).number_index() == index_insert(
                old(self).number_index(),
                value@.1,
                key@,
            ),
            !saved ==> final(self).string_index() == old(self).string_index(),
            !saved ==> final(self).number_index() == old(self).number_index(),
    {
        if saved {
            let Entry { string_col, num_col } = value;
            index_put(&mut self.str_col_indexer, string_col, key.duplicate());
            index_put(&mut self.num_col_indexer, num_col, key);
        }
        saved
    }

    /// A copy of the string-column index, in ascending cell order.
    pub fn index_by_string_col(&self) -> (r: Vec<(Data, Key)>)
        ensures
            index_view(r@) == self.string_index(),
    {
        copy_index(&self.str_col_indexer)
    }

    /// A copy of the number-column index, in ascending cell order.
    pub fn index_by_num_col(&self) -> (r: Vec<(Data, Key)>)
        ensures
            index_view(r@) == self.number_index(),
    {
        copy_index(&self.num_col_indexer)
    }

    /// Opens a new store at `path` and writes into it, in ascending order of
    /// the string-column index, each cell under the key of its record.
    pub fn sort_by_string_col(&self, path: &str) -> (r: S)
        ensures
            r.cols() == column_writes(self.string_index()),
            r.records() == RecordWrites::empty(),
    {
        let mut sort_db = S::initialize(path);
        write_column(&mut sort_db, &self.str_col_indexer);
        proof {
            assert(sort_db.cols() =~= column_writes(self.string_index()));
        }
        sort_db
    }

    /// Opens a new store at `path` and writes into it, in ascending order of
    /// the number-column index, each cell under the key of its record.
    pub fn sort_by_num_col(&self, path: &str) -> (r: S)
        ensures
            r.cols() == column_writes(self.number_index()),
            r.records() == RecordWrites::empty(),
    {
        let mut sort_db = S::initialize(path);
        write_column(&mut sort_db, &self.num_col_indexer);
        proof {
            assert(sort_db.cols() =~= column_writes(self.number_index()));
        }
        sort_db
    }
}

} // verus!
