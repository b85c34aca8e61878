//! Column cells: a text or a 64-bit integer value, totally ordered.
use core::cmp::Ordering;
use vstd::prelude::*;
use vstd::utf8::{decode_utf8, encode_utf8, encode_utf8_decode_utf8};
use crate::encoding::{be_bytes, be_value, i64_to_be_bytes, lemma_be_round_trip};
use crate::order::{
    compare_bytes, lemma_lex_irreflexive, lemma_lex_total, lemma_lex_transitive, lex_cmp,
    lex_lt,
};

verus! {

/// The content of one column of a record.
#[derive(Eq, Ord, Debug, Clone)]
pub enum Data {
    StringVal(String),
    NumberVal(i64),
}

/// What a cell holds, as a mathematical value.
pub enum CellModel {
    Text(Seq<char>),
    Number(i64),
}

impl View for Data {
    type V = CellModel;

    open spec fn view(&self) -> CellModel {
        match self {
            Data::StringVal(s) => CellModel::Text(s@),
            Data::NumberVal(n) => CellModel::Number(*n),
        }
    }
}

/// The bytes a cell is written as: UTF-8 for text, eight big-endian bytes
/// for an integer.
pub open spec fn cell_bytes(c: CellModel) -> Seq<u8> {
    match c {
        CellModel::Text(s) => encode_utf8(s),
        CellModel::Number(n) => be_bytes(n),
    }
}

/// Strict order on cells. Every text sorts before every integer; texts are
/// ordered byte-wise on their UTF-8 form, integers by value.
pub open spec fn cell_lt(a: CellModel, b: CellModel) -> bool {
    match (a, b) {
        (CellModel::Text(x), CellModel::Text(y)) => lex_lt(encode_utf8(x), encode_utf8(y)),
        (CellModel::Text(_), CellModel::Number(_)) => true,
        (CellModel::Number(_), CellModel::Text(_)) => false,
        (CellModel::Number(m), CellModel::Number(n)) => m < n,
    }
}

/// Three-way comparison under `cell_lt`.
pub open spec fn cell_cmp(a: CellModel, b: CellModel) -> Ordering {
    if cell_lt(a, b) {
        Ordering::Less
    } else if a == b {
        Ordering::Equal
    } else {
        Ordering::Greater
    }
}

/// The cell order is a strict total order: irreflexive, transitive, and
/// any two distinct cells are comparable.
pub proof fn lemma_cell_order(a: CellModel, b: CellModel, c: CellModel)
    ensures
        !cell_lt(a, a),
        cell_lt(a, b) && cell_lt(b, c) ==> cell_lt(a, c),
        a != b ==> cell_lt(a, b) || cell_lt(b, a),
        cell_lt(a, b) ==> !cell_lt(b, a),
{
    match a {
        CellModel::Text(x) => lemma_lex_irreflexive(encode_utf8(x)),
        CellModel::Number(_) => {},
    }
    if cell_lt(a, b) && cell_lt(b, c) {
        match (a, b, c) {
            (CellModel::Text(x), CellModel::Text(y), CellModel::Text(z)) => {
                lemma_lex_transitive(encode_utf8(x), encode_utf8(y), encode_utf8(z));
            },
            _ => {},
        }
    }
    if cell_lt(a, b) && cell_lt(b, a) {
        match (a, b) {
            (CellModel::Text(x), CellModel::Text(y)) => {
                lemma_lex_transitive(encode_utf8(x), encode_utf8(y), encode_utf8(x));
                lemma_lex_irreflexive(encode_utf8(x));
            },
            _ => {},
        }
    }
    if a != b {
        match (a, b) {
            (CellModel::Text(x), CellModel::Text(y)) => {
                encode_utf8_decode_utf8(x);
                encode_utf8_decode_utf8(y);
                lemma_lex_total(encode_utf8(x), encode_utf8(y));
            },
            _ => {},
        }
    }
}

/// Between cells of one variant, comparison follows their values: integers
/// numerically, texts lexicographically on their UTF-8 bytes.
pub proof fn lemma_same_variant_order(a: CellModel, b: CellModel)
    ensures
        a matches CellModel::Number(m) ==> (b matches CellModel::Number(n) ==> cell_cmp(a, b) == (
        if m < n {
            Ordering::Less
        } else if m == n {
            Ordering::Equal
        } else {
            Ordering::Greater
        })),
        a matches CellModel::Text(x) ==> (b matches CellModel::Text(y) ==> cell_cmp(a, b)
            == lex_cmp(encode_utf8(x), encode_utf8(y))),
{
    if let (CellModel::Text(x), CellModel::Text(y)) = (a, b) {
        encode_utf8_decode_utf8(x);
        encode_utf8_decode_utf8(y);
    }
}

/// A cell's bytes give back its value: an integer through big-endian
/// decoding of its eight bytes, a text through UTF-8 decoding.
pub proof fn lemma_cell_bytes_decode(c: CellModel)
    ensures
        c matches CellModel::Number(n) ==> cell_bytes(c).len() == 8 && be_value(cell_bytes(c))
            == n,
        c matches CellModel::Text(s) ==> decode_utf8(cell_bytes(c)) == s,
{
    match c {
        CellModel::Number(n) => lemma_be_round_trip(n),
        CellModel::Text(s) => encode_utf8_decode_utf8(s),
    }
}

impl Data {
    /// A text cell.
    pub fn new_from_str(string_val: &str) -> (r: Data)
        ensures
            r@ == CellModel::Text(string_val@),
    {
        Data::StringVal(string_val.to_owned())
    }

    /// An integer cell.
    pub fn new_from_number(number_val: i64) -> (r: Data)
        ensures
            r@ == CellModel::Number(number_val),
    {
        Data::NumberVal(number_val)
    }

    /// A copy of this cell.
    pub fn duplicate(&self) -> (r: Data)
        ensures
            r@ == self@,
    {
        match self {
            Data::StringVal(s) => Data::StringVal(s.clone()),
            Data::NumberVal(n) => Data::NumberVal(*n),
        }
    }

    /// The cell's byte encoding.
    pub fn to_bytes(&self) -> (r: Vec<u8>)
        ensures
            r@ == cell_bytes(self@),
    {
        match self {
            Data::StringVal(s) => {
                let b: &[u8] = s.as_str().as_bytes();
                vstd::slice::slice_to_vec(b)
            },
            Data::NumberVal(n) => i64_to_be_bytes(*n),
        }
    }

    /// Compares two cells: texts before integers, texts byte-wise,
    /// integers numerically.
    pub fn compare(&self, other: &Data) -> (r: Ordering)
        ensures
            r == cell_cmp(self@, other@),
    {
        match (self, other) {
            (Data::StringVal(x), Data::StringVal(y)) => {
                let bx: &[u8] = x.as_str().as_bytes();
                let by: &[u8] = y.as_str().as_bytes();
                let r = compare_bytes(bx, by);
                proof {
                    if bx@ == by@ {
                        encode_utf8_decode_utf8(x@);
                        encode_utf8_decode_utf8(y@);
                    }
                }
                r
            },
            (Data::StringVal(_), Data::NumberVal(_)) => Ordering::Less,
            (Data::NumberVal(_), Data::StringVal(_)) => Ordering::Greater,
            (Data::NumberVal(m), Data::NumberVal(n)) => {
                if *m < *n {
                    Ordering::Less
                } else if *m == *n {
                    Ordering::Equal
                } else {
                    Ordering::Greater
                }
            },
        }
    }

    /// Whether two cells hold the same variant and value.
    pub fn same(&self, other: &Data) -> (r: bool)
        ensures
            r == (self@ == other@),
    {
        match (self, other) {
            (Data::StringVal(x), Data::StringVal(y)) => *x == *y,
            (Data::NumberVal(m), Data::NumberVal(n)) => *m == *n,
            _ => false,
        }
    }
}

impl PartialEq for Data {
    fn eq(&self, other: &Data) -> (r: bool) {
        self.same(other)
    }
}

impl vstd::std_specs::cmp::PartialEqSpecImpl for Data {
    open spec fn obeys_eq_spec() -> bool {
        true
    }

    open spec fn eq_spec(&self, other: &Data) -> bool {
        self@ == other@
    }
}

impl PartialOrd for Data {
    fn partial_cmp(&self, other: &Data) -> (r: Option<Ordering>) {
        Some(self.compare(other))
    }
}

impl vstd::std_specs::cmp::PartialOrdSpecImpl for Data {
    open spec fn obeys_partial_cmp_spec() -> bool {
        true
    }

    open spec fn partial_cmp_spec(&self, other: &Data) -> Option<Ordering> {
        Some(cell_cmp(self@, other@))
    }
}

impl From<Data> for Vec<u8> {
    fn from(data: Data) -> (r: Vec<u8>)
        ensures
            r@ == cell_bytes(data@),
    {
        data.to_bytes()
    }
}

impl vstd::std_specs::convert::FromSpecImpl<Data> for Vec<u8> {
    open spec fn obeys_from_spec() -> bool {
        false
    }

    open spec fn from_spec(data: Data) -> Vec<u8> {
        arbitrary()
    }
}

} // verus!
