//! Record keys: owned byte strings ordered byte-wise.
use core::cmp::Ordering;
use vstd::prelude::*;
use crate::encoding::{be_bytes, i64_to_be_bytes};
use crate::order::{compare_bytes, lemma_lex_irreflexive, lex_cmp};

verus! {

/// The identifier of a record in the primary store.
#[derive(Eq, Ord, Hash, Clone, Debug)]
pub struct Key {
    key: Vec<u8>,
}

impl View for Key {
    type V = Seq<u8>;

    closed spec fn view(&self) -> Seq<u8> {
        self.key@
    }
}

impl Key {
    /// The key of an integer: its eight big-endian two's-complement bytes.
    /// Non-negative integers keep their numeric order under byte order;
    /// negative ones sort after all non-negative ones.
    pub fn from_integer(n: i64) -> (r: Key)
        ensures
            r@ == be_bytes(n),
    {
        Key { key: i64_to_be_bytes(n) }
    }

    /// A copy of the key's bytes.
    pub fn to_bytes(&self) -> (r: Vec<u8>)
        ensures
            r@ == self@,
    {
        vstd::slice::slice_to_vec(self.key.as_slice())
    }

    /// The key's bytes, borrowed.
    pub fn as_bytes(&self) -> (r: &[u8])
        ensures
            r@ == self@,
    {
        self.key.as_slice()
    }

    /// A copy of this key.
    pub fn duplicate(&self) -> (r: Key)
        ensures
            r@ == self@,
    {
        Key { key: self.to_bytes() }
    }

    /// Byte-wise comparison of two keys.
    pub fn compare(&self, other: &Key) -> (r: Ordering)
        ensures
            r == lex_cmp(self@, other@),
    {
        compare_bytes(self.key.as_slice(), other.key.as_slice())
    }
}

impl From<i64> for Key {
    fn from(key: i64) -> (r: Key)
        ensures
            r@ == be_bytes(key),
    {
        Key::from_integer(key)
    }
}

impl vstd::std_specs::convert::FromSpecImpl<i64> for Key {
    open spec fn obeys_from_spec() -> bool {
        false
    }

    open spec fn from_spec(key: i64) -> Key {
        arbitrary()
    }
}

impl PartialEq for Key {
    fn eq(&self, other: &Key) -> (r: bool) {
        proof {
            lemma_lex_irreflexive(self@);
        }
        match self.compare(other) {
            Ordering::Equal => true,
            _ => false,
        }
    }
}

impl vstd::std_specs::cmp::PartialEqSpecImpl for Key {
    open spec fn obeys_eq_spec() -> bool {
        true
    }

    open spec fn eq_spec(&self, other: &Key) -> bool {
        self@ == other@
    }
}

impl PartialOrd for Key {
    fn partial_cmp(&self, other: &Key) -> (r: Option<Ordering>) {
        Some(self.compare(other))
    }
}

impl vstd::std_specs::cmp::PartialOrdSpecImpl for Key {
    open spec fn obeys_partial_cmp_spec() -> bool {
        true
    }

    open spec fn partial_cmp_spec(&self, other: &Key) -> Option<Ordering> {
        Some(lex_cmp(self@, other@))
    }
}

impl AsRef<[u8]> for Key {
    fn as_ref(&self) -> (r: &[u8])
        ensures
            r@ == self@,
    {
        self.as_bytes()
    }
}

} // verus!
