//! Diagnostic text for cells and keys.
use vstd::prelude::*;
use crate::data::{CellModel, Data};
use crate::key::Key;

verus! {

/// What `{:?}` prints for a string: the text quoted, with escapes.
pub uninterp spec fn quoted_text_of(s: Seq<char>) -> Seq<char>;

/// What `{}` prints for a signed integer: its decimal form.
pub uninterp spec fn decimal_of(n: i64) -> Seq<char>;

/// What `{:?}` prints for a byte vector: the bytes as a bracketed list.
pub uninterp spec fn byte_list_of(b: Seq<u8>) -> Seq<char>;

/// Relies on std's `Debug` for `str`: the result depends on the text alone.
#[verifier::external_body]
fn quote_text(s: &String) -> (r: String)
    ensures
        r@ == quoted_text_of(s@),
{
    format!("{:?}", s)
}

/// Relies on std's `Display` for `i64`: the result depends on the value alone.
#[verifier::external_body]
fn decimal(n: i64) -> (r: String)
    ensures
        r@ == decimal_of(n),
{
    format!("{}", n)
}

/// Relies on std's `Debug` for `Vec<u8>`: the result depends on the bytes alone.
#[verifier::external_body]
fn byte_list(b: &Vec<u8>) -> (r: String)
    ensures
        r@ == byte_list_of(b@),
{
    format!("{:?}", b)
}

/// The diagnostic text of a cell.
pub open spec fn cell_text(c: CellModel) -> Seq<char> {
    match c {
        CellModel::Text(s) => quoted_text_of(s),
        CellModel::Number(n) => decimal_of(n),
    }
}

impl Data {
    /// The cell as text: an integer in decimal, a text quoted.
    pub fn render(&self) -> (r: String)
        ensures
            r@ == cell_text(self@),
    {
        match self {
            Data::StringVal(s) => quote_text(s),
            Data::NumberVal(n) => decimal(*n),
        }
    }
}

impl Key {
    /// The key as a bracketed list of its bytes.
    pub fn render(&self) -> (r: String)
        ensures
            r@ == byte_list_of(self@),
    {
        let b = self.to_bytes();
        byte_list(&b)
    }
}

} // verus!
