//! A table: a fixed list of column types in front of one ordered store.
use vstd::prelude::*;
use vstd::string::StrSliceExecFns;
use crate::data::{Data, DataView, Schema, compatible};
use crate::sstable::{SSTable, Entries, keys_ascending, has_key, flatten, taken, upserted,
    lemma_contents_at};

verus! {

/// Why a row was not taken.
#[derive(Debug, Clone, Copy, PartialEq, Eq, Structural)]
pub enum Error {
    /// The row has another number of values than the table has columns, or a
    /// value does not fit its column.
    IncompatibleSchema,
}

/// Whether a row fits a list of column types: one value per column, each
/// compatible with its column.
pub open spec fn conforms(row: Seq<DataView>, schema: Seq<Schema>) -> bool {
    &&& row.len() == schema.len()
    &&& forall|i: int| 0 <= i < row.len() ==> compatible(#[trigger] row[i], schema[i])
}

/// Whether every row of a store fits the list of column types.
pub open spec fn all_conform(s: Entries, schema: Seq<Schema>) -> bool {
    forall|i: int| 0 <= i < s.len() ==> conforms(#[trigger] s[i].1, schema)
}

/// In a column of texts of at most `n` characters a text fits exactly when
/// it has at most `n` characters, and nothing else fits; in a column of
/// integers exactly the integers fit; in a column marked `All` nothing fits.
pub proof fn lemma_column_bounds(d: DataView, n: usize)
    ensures
        compatible(d, Schema::String(n)) <==> (d matches DataView::String(text) && text.len() <= n),
        compatible(d, Schema::Integer) <==> d is Integer,
        !compatible(d, Schema::All),
{
}

/// A row with another number of values than there are columns does not fit.
pub proof fn lemma_length_mismatch(row: Seq<DataView>, schema: Seq<Schema>)
    requires
        row.len() != schema.len(),
    ensures
        !conforms(row, schema),
{
}

/// A named table with one column type per column.
pub struct Table {
    pub name: String,
    pub schema: Vec<Schema>,
    sstable: SSTable,
}

/// Whether one value fits one column.
pub fn fits(d: &Data, s: &Schema) -> (ok: bool)
    ensures
        ok == compatible(d@, *s),
{
    match (d, s) {
        (Data::String(text), Schema::String(n)) => text.as_str().unicode_len() <= *n,
        (Data::Integer(_), Schema::Integer) => true,
        _ => false,
    }
}

/// Whether a row fits a list of column types.
pub fn validate(value: &[Data], schema: &Vec<Schema>) -> (ok: bool)
    ensures
        ok == conforms(value.deep_view(), schema@),
{
    if value.len() != schema.len() {
        return false;
    }
    let mut i: usize = 0;
    while i < value.len()
        invariant
            i <= value.len(),
            value.len() == schema.len(),
            forall|j: int| 0 <= j < i ==> compatible(#[trigger] value.deep_view()[j], schema@[j]),
        decreases value.len() - i,
    {
        if !fits(&value[i], &schema[i]) {
            assert(!compatible(value.deep_view()[i as int], schema@[i as int]));
            return false;
        }
        i += 1;
    }
    true
}

impl Table {
    /// The rows of the table under their keys, in ascending key order.
    pub closed spec fn rows(&self) -> Entries {
        self.sstable@
    }

    /// The table's name.
    pub closed spec fn name_spec(&self) -> Seq<char> {
        self.name@
    }

    /// The table's column types.
    pub closed spec fn schema_spec(&self) -> Seq<Schema> {
        self.schema@
    }

    /// The table's name.
    pub fn name(&self) -> (r: &String)
        ensures
            r@ == self.name_spec(),
    {
        &self.name
    }

    /// The table's column types.
    pub fn schema(&self) -> (r: &Vec<Schema>)
        ensures
            r@ == self.schema_spec(),
    {
        &self.schema
    }

    /// An empty table with the given name and column types.
    pub fn new(name: String, schema: Vec<Schema>) -> (res: Table)
        ensures
            res.name_spec() == name@,
            res.schema_spec() == schema@,
            res.rows() == Entries::empty(),
    {
        Table { name, schema, sstable: SSTable::new() }
    }

    /// The rows of the first `limit` keys in ascending key order, one after
    /// the other.
    pub fn read_all(&self, limit: usize) -> (res: Vec<Data>)
        ensures
            keys_ascending(self.rows()),
            self.rows().len() <= usize::MAX,
            res.deep_view() == flatten(self.rows().take(taken(self.rows(), limit as int))),
    {
        self.sstable.read_all(limit)
    }

    /// Puts the row under `key` if it fits the table's column types, in place
    /// of any row that stood there; otherwise leaves the table as it was.
    pub fn insert(&mut self, key: String, value: &[Data]) -> (res: Result<(), Error>)
        ensures
            final(self).name_spec() == old(self).name_spec(),
            final(self).schema_spec() == old(self).schema_spec(),
            keys_ascending(final(self).rows()),
            match res {
                Ok(()) => {
                    &&& conforms(value.deep_view(), old(self).schema_spec())
                    &&& upserted(old(self).rows(), final(self).rows(), key@, value.deep_view())
                },
                Err(e) => {
                    &&& e == Error::IncompatibleSchema
                    &&& !conforms(value.deep_view(), old(self).schema_spec())
                    &&& final(self).rows() == old(self).rows()
                },
            },
            all_conform(old(self).rows(), old(self).schema_spec()) ==> all_conform(
                final(self).rows(),
                final(self).schema_spec(),
            ),
    {
        proof {
            use_type_invariant(&self.sstable);
        }
        if !validate(value, &self.schema) {
            return Err(Error::IncompatibleSchema);
        }
        let ghost before = self.sstable@;
        self.sstable.insert(key, value);
        proof {
            let after = self.sstable@;
            let schema = self.schema@;
            if all_conform(before, schema) {
                assert forall|i: int| 0 <= i < after.len() implies conforms(
                    #[trigger] after[i].1,
                    schema,
                ) by {
                    lemma_contents_at(after, i);
                    let q = after[i].0;
                    if q != key@ {
                        assert(has_key(before, q));
                        let j = choose|j: int| 0 <= j < before.len() && #[trigger] before[j].0 == q;
                        lemma_contents_at(before, j);
                    }
                }
            }
        }
        Ok(())
    }
}

impl Default for Table {
    fn default() -> (res: Self)
        ensures
            res.name_spec() == Seq::<char>::empty(),
            res.schema_spec() == Seq::<Schema>::empty(),
            res.rows() == Entries::empty(),
    {
        Table { name: String::new(), schema: Vec::new(), sstable: SSTable::new() }
    }
}

} // verus!
