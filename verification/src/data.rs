//! Values and column types.
use vstd::prelude::*;

verus! {

/// One value of a row.
#[derive(Debug, PartialEq, Eq)]
pub enum Data {
    String(String),
    Integer(i64),
}

/// The type of one column. `All` marks a projection of every column and is
/// never the type of a stored column.
#[derive(Debug, PartialEq, Eq)]
pub enum Schema {
    String(usize),
    Integer,
    All,
}

/// What a [`Data`] stands for: text as a sequence of characters, or an integer.
pub ghost enum DataView {
    String(Seq<char>),
    Integer(i64),
}

impl View for Data {
    type V = DataView;

    open spec fn view(&self) -> DataView {
        match self {
            Data::String(s) => DataView::String(s@),
            Data::Integer(n) => DataView::Integer(*n),
        }
    }
}

impl DeepView for Data {
    type V = DataView;

    open spec fn deep_view(&self) -> DataView {
        self@
    }
}

impl Clone for Schema {
    fn clone(&self) -> (res: Self)
        ensures
            res == *self,
    {
        match self {
            Schema::String(n) => Schema::String(*n),
            Schema::Integer => Schema::Integer,
            Schema::All => Schema::All,
        }
    }
}

impl Clone for Data {
    fn clone(&self) -> (res: Self)
        ensures
            res@ == self@,
    {
        match self {
            Data::String(s) => Data::String(s.clone()),
            Data::Integer(n) => Data::Integer(*n),
        }
    }
}

/// Whether a value may stand in a column of the given type: text of at most
/// `n` characters in a `String(n)` column, an integer in an `Integer` column,
/// and nothing in an `All` column.
pub open spec fn compatible(d: DataView, s: Schema) -> bool {
    match (d, s) {
        (DataView::String(text), Schema::String(n)) => text.len() <= n,
        (DataView::Integer(_), Schema::Integer) => true,
        _ => false,
    }
}

/// Copies a row, value by value.
pub fn clone_row(row: &[Data]) -> (res: Vec<Data>)
    ensures
        res.deep_view() == row.deep_view(),
{
    let mut res: Vec<Data> = Vec::new();
    let mut i: usize = 0;
    while i < row.len()
        invariant
            i <= row.len(),
            res.len() == i,
            forall|j: int| 0 <= j < i ==> res[j]@ == row[j]@,
        decreases row.len() - i,
    {
        res.push(row[i].clone());
        i += 1;
    }
    assert(res.deep_view() =~= row.deep_view());
    res
}

} // verus!
