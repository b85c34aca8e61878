use colindex::data::Data;
use colindex::db::{ColumnWrites, KVStore, RecordWrites};
use colindex::errors::Error;
use colindex::indexer::{Entry, Indexer};
use colindex::key::Key;
use std::cell::RefCell;

/// An in-memory store that logs every write; a path containing "refuse"
/// gives a store that rejects all writes.
struct MemStore {
    accept: bool,
    log: RefCell<Vec<(Key, String)>>,
}

impl KVStore for MemStore {
    // A model for the verifier only; nothing calls it at run time.
    fn cols(&self) -> ColumnWrites {
        ColumnWrites::empty()
    }

    // A model for the verifier only; nothing calls it at run time.
    fn records(&self) -> RecordWrites {
        RecordWrites::empty()
    }

    fn initialize(file_path: &str) -> Self {
        MemStore { accept: !file_path.contains("refuse"), log: RefCell::new(Vec::new()) }
    }

    fn save(&mut self, k: Key, v: Entry) -> bool {
        if self.accept {
            let text = format!("{},{}", v.string_col().render(), v.num_col().render());
            self.log.borrow_mut().push((k, text));
        }
        self.accept
    }

    fn save_col(&mut self, k: Key, v: Data) -> bool {
        if self.accept {
            self.log.borrow_mut().push((k, v.render()));
        }
        self.accept
    }

    fn find(&self, k: Key) -> Result<Option<String>, Error> {
        Ok(self.log.borrow().iter().rev().find(|(key, _)| *key == k).map(|(_, v)| v.clone()))
    }
}

fn sample_rows() -> Vec<(Key, Entry)> {
    vec![
        (0.into(), Entry::new(Data::new_from_str("String Z"), Data::new_from_number(4))),
        (2.into(), Entry::new(Data::new_from_str("String B"), Data::new_from_number(9))),
        (10.into(), Entry::new(Data::new_from_str("String C"), Data::new_from_number(75))),
        (5.into(), Entry::new(Data::new_from_str("q"), Data::new_from_number(3))),
    ]
}

fn loaded(path: &str) -> Indexer<MemStore> {
    let mut indexer: Indexer<MemStore> = Indexer::new(path);
    for row in sample_rows() {
        assert!(indexer.entry(row.0, row.1));
    }
    indexer
}

#[test]
fn test_indexing_by_string_col() {
    let indexer = loaded("/tmp/only1/test1");
    let index = indexer.index_by_string_col();
    let mut start_iter = index.iter();
    assert_eq!(start_iter.next(), Some(&(Data::new_from_str("String B"), 2.into())));
    assert_eq!(start_iter.next(), Some(&(Data::new_from_str("String C"), 10.into())));
    assert_eq!(start_iter.next(), Some(&(Data::new_from_str("String Z"), 0.into())));
    assert_eq!(start_iter.next(), Some(&(Data::new_from_str("q"), 5.into())));
}

#[test]
fn test_indexing_by_number_col() {
    let indexer = loaded("/tmp/only1/test2");
    let index = indexer.index_by_num_col();
    let mut start_iter = index.iter();
    assert_eq!(start_iter.next(), Some(&(Data::new_from_number(3), 5.into())));
    assert_eq!(start_iter.next(), Some(&(Data::new_from_number(4), 0.into())));
    assert_eq!(start_iter.next(), Some(&(Data::new_from_number(9), 2.into())));
    assert_eq!(start_iter.next(), Some(&(Data::new_from_number(75), 10.into())));
}

#[test]
fn upsert_twice_changes_nothing() {
    let mut indexer = loaded("/tmp/only1/twice");
    let key = Key::from_integer(7);
    let row = Entry::new(Data::new_from_str("M"), Data::new_from_number(50));
    assert!(indexer.entry(key.clone(), row.clone()));
    let by_string = indexer.index_by_string_col();
    let by_number = indexer.index_by_num_col();
    assert!(indexer.entry(key, row));
    assert_eq!(indexer.index_by_string_col(), by_string);
    assert_eq!(indexer.index_by_num_col(), by_number);
}

#[test]
fn distinct_values_give_one_entry_each() {
    let mut indexer: Indexer<MemStore> = Indexer::new("/tmp/only1/distinct");
    assert_eq!(indexer.index_by_string_col().len(), 0);
    for i in 0..20i64 {
        let row = Entry::new(Data::new_from_str(&format!("v{}", 19 - i)), Data::new_from_number(i * 3));
        assert!(indexer.entry(Key::from_integer(i), row));
    }
    assert_eq!(indexer.index_by_string_col().len(), 20);
    assert_eq!(indexer.index_by_num_col().len(), 20);
}

#[test]
fn equal_cells_keep_the_later_key() {
    let mut indexer: Indexer<MemStore> = Indexer::new("/tmp/only1/collide");
    assert!(indexer.entry(1.into(), Entry::new(Data::new_from_str("same"), Data::new_from_number(1))));
    assert!(indexer.entry(2.into(), Entry::new(Data::new_from_str("same"), Data::new_from_number(2))));
    let index = indexer.index_by_string_col();
    assert_eq!(index, vec![(Data::new_from_str("same"), Key::from_integer(2))]);
    assert_eq!(indexer.index_by_num_col().len(), 2);
}

#[test]
fn refused_write_leaves_indexes_alone() {
    let mut indexer: Indexer<MemStore> = Indexer::new("/tmp/only1/refuse");
    let row = Entry::new(Data::new_from_str("x"), Data::new_from_number(1));
    assert!(!indexer.entry(1.into(), row));
    assert!(indexer.index_by_string_col().is_empty());
    assert!(indexer.index_by_num_col().is_empty());
}

#[test]
fn export_by_number_writes_in_value_order() {
    let indexer = loaded("/tmp/only1/export");
    let sorted = indexer.sort_by_num_col("/tmp/Only1/SortNumberTable");
    let log = sorted.log.borrow();
    let cells: Vec<&str> = log.iter().map(|(_, v)| v.as_str()).collect();
    assert_eq!(cells, vec!["3", "4", "9", "75"]);
    let keys: Vec<Key> = log.iter().map(|(k, _)| k.clone()).collect();
    assert_eq!(keys, vec![5.into(), 0.into(), 2.into(), 10.into()]);
    assert_eq!(sorted.find(Key::from_integer(10)), Ok(Some("75".to_string())));
}

#[test]
fn export_by_string_writes_in_value_order() {
    let indexer = loaded("/tmp/only1/export2");
    let sorted = indexer.sort_by_string_col("/tmp/Only1/SortStringTable");
    let log = sorted.log.borrow();
    let cells: Vec<&str> = log.iter().map(|(_, v)| v.as_str()).collect();
    assert_eq!(cells, vec!["\"String B\"", "\"String C\"", "\"String Z\"", "\"q\""]);
}

#[test]
fn apply_save_follows_the_store_answer() {
    let mut indexer: Indexer<MemStore> = Indexer::new("/tmp/only1/apply");
    let row = Entry::new(Data::new_from_str("x"), Data::new_from_number(1));
    assert!(!indexer.apply_save(false, 1.into(), row.clone()));
    assert!(indexer.index_by_string_col().is_empty());
    assert!(indexer.index_by_num_col().is_empty());
    assert!(indexer.apply_save(true, 1.into(), row));
    assert_eq!(indexer.index_by_string_col(), vec![(Data::new_from_str("x"), Key::from_integer(1))]);
    assert_eq!(indexer.index_by_num_col(), vec![(Data::new_from_number(1), Key::from_integer(1))]);
}
