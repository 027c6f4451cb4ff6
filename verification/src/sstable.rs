//! The ordered store: rows under string keys, kept in ascending key order.
use vstd::prelude::*;
use crate::data::{Data, DataView, clone_row};
use crate::keyorder::{KeyOrder, key_lt, compare_keys, lemma_key_lt_transitive,
    lemma_key_lt_irreflexive, lemma_key_lt_asymmetric, lemma_key_lt_total};

verus! {

/// What a store holds, in the order in which it is read: keys with their rows.
pub type Entries = Seq<(Seq<char>, Seq<DataView>)>;

/// Every key comes strictly before the keys behind it.
pub open spec fn keys_ascending(s: Entries) -> bool {
    forall|i: int, j: int| 0 <= i < j < s.len() ==> key_lt(#[trigger] s[i].0, #[trigger] s[j].0)
}

/// Whether some entry of `s` has the key `k`.
pub open spec fn has_key(s: Entries, k: Seq<char>) -> bool {
    exists|i: int| 0 <= i < s.len() && #[trigger] s[i].0 == k
}

/// The entries as a map from key to row.
pub open spec fn contents(s: Entries) -> Map<Seq<char>, Seq<DataView>> {
    Map::new(
        |k: Seq<char>| has_key(s, k),
        |k: Seq<char>| s[choose|i: int| 0 <= i < s.len() && #[trigger] s[i].0 == k].1,
    )
}

/// The rows of `s`, one after the other, as one sequence of values.
pub open spec fn flatten(s: Entries) -> Seq<DataView>
    decreases s.len(),
{
    if s.len() == 0 {
        Seq::empty()
    } else {
        flatten(s.drop_last()) + s.last().1
    }
}

/// The number of entries that a read with the given limit takes.
pub open spec fn taken(s: Entries, limit: int) -> int {
    if limit < s.len() {
        limit
    } else {
        s.len() as int
    }
}

/// `after` is `before` with `row` put under `key`: it is in ascending key
/// order, holds `row` under `key` and every other key with its row as
/// before, and is one entry longer exactly if `key` is new.
pub open spec fn upserted(
    before: Entries,
    after: Entries,
    key: Seq<char>,
    row: Seq<DataView>,
) -> bool {
    &&& keys_ascending(after)
    &&& contents(after) == contents(before).insert(key, row)
    &&& after.len() == before.len() + (if has_key(before, key) {
        0int
    } else {
        1int
    })
}

struct Entry {
    key: String,
    row: Vec<Data>,
}

impl DeepView for Entry {
    type V = (Seq<char>, Seq<DataView>);

    closed spec fn deep_view(&self) -> (Seq<char>, Seq<DataView>) {
        (self.key@, self.row.deep_view())
    }
}

/// A store of rows under string keys. Its entries are always in strictly
/// ascending key order, so it holds at most one row per key.
pub struct SSTable {
    data: Vec<Entry>,
}

impl View for SSTable {
    type V = Entries;

    closed spec fn view(&self) -> Entries {
        self.data.deep_view()
    }
}

/// In an ascending store each key stands at one position only, and the map of
/// its contents gives that position's row.
pub proof fn lemma_contents_at(s: Entries, i: int)
    requires
        keys_ascending(s),
        0 <= i < s.len(),
    ensures
        contents(s).contains_key(s[i].0),
        contents(s)[s[i].0] == s[i].1,
        forall|j: int| 0 <= j < s.len() && #[trigger] s[j].0 == s[i].0 ==> j == i,
{
    assert forall|j: int| 0 <= j < s.len() && #[trigger] s[j].0 == s[i].0 implies j == i by {
        lemma_key_lt_irreflexive(s[i].0);
        if j < i {
            assert(key_lt(s[j].0, s[i].0));
        } else if i < j {
            assert(key_lt(s[i].0, s[j].0));
        }
    }
    assert(has_key(s, s[i].0));
}

/// Another row at the position of a key is that row put under the key.
pub proof fn lemma_replace_row(s: Entries, i: int, row: Seq<DataView>)
    requires
        keys_ascending(s),
        0 <= i < s.len(),
    ensures
        upserted(s, s.update(i, (s[i].0, row)), s[i].0, row),
{
    let k = s[i].0;
    let t = s.update(i, (k, row));
    assert forall|a: int, b: int| 0 <= a < b < t.len() implies key_lt(
        #[trigger] t[a].0,
        #[trigger] t[b].0,
    ) by {
        assert(key_lt(s[a].0, s[b].0));
    }
    assert(has_key(s, k));
    assert forall|q: Seq<char>| has_key(t, q) <==> has_key(s, q) by {
        if has_key(t, q) {
            let a = choose|a: int| 0 <= a < t.len() && #[trigger] t[a].0 == q;
            assert(s[a].0 == q);
        }
        if has_key(s, q) {
            let a = choose|a: int| 0 <= a < s.len() && #[trigger] s[a].0 == q;
            assert(t[a].0 == q);
        }
    }
    assert forall|q: Seq<char>| has_key(t, q) implies contents(t)[q] == contents(s).insert(
        k,
        row,
    )[q] by {
        let a = choose|a: int| 0 <= a < t.len() && #[trigger] t[a].0 == q;
        lemma_contents_at(t, a);
        lemma_contents_at(s, a);
    }
    assert(contents(t) =~= contents(s).insert(k, row));
}

/// Without its last entry an ascending store holds the same rows but for the
/// last key.
pub proof fn lemma_contents_drop_last(s: Entries)
    requires
        keys_ascending(s),
        s.len() > 0,
    ensures
        keys_ascending(s.drop_last()),
        contents(s.drop_last()) == contents(s).remove(s.last().0),
{
    let t = s.drop_last();
    let k = s.last().0;
    assert forall|q: Seq<char>| has_key(t, q) <==> (q != k && has_key(s, q)) by {
        if has_key(t, q) {
            let i = choose|i: int| 0 <= i < t.len() && #[trigger] t[i].0 == q;
            assert(s[i].0 == q);
            assert(key_lt(s[i].0, s[s.len() - 1].0));
            lemma_key_lt_irreflexive(k);
        }
        if q != k && has_key(s, q) {
            let i = choose|i: int| 0 <= i < s.len() && #[trigger] s[i].0 == q;
            assert(t[i].0 == q);
        }
    }
    assert forall|q: Seq<char>| has_key(t, q) implies contents(t)[q] == contents(s)[q] by {
        let i = choose|i: int| 0 <= i < t.len() && #[trigger] t[i].0 == q;
        lemma_contents_at(t, i);
        lemma_contents_at(s, i);
    }
    assert(contents(t) =~= contents(s).remove(k));
}

/// The order of the entries does not depend on how the store came to hold
/// them: two ascending stores with the same rows under the same keys are the
/// same sequence of entries.
pub proof fn lemma_same_contents_same_entries(a: Entries, b: Entries)
    requires
        keys_ascending(a),
        keys_ascending(b),
        contents(a) == contents(b),
    ensures
        a == b,
    decreases a.len(),
{
    if a.len() == 0 {
        if b.len() > 0 {
            lemma_contents_at(b, 0);
            assert(has_key(a, b[0].0));
        }
        assert(a =~= b);
    } else if b.len() == 0 {
        lemma_contents_at(a, 0);
        assert(has_key(b, a[0].0));
    } else {
        let la = a.len() - 1;
        let lb = b.len() - 1;
        lemma_contents_at(a, la);
        lemma_contents_at(b, lb);
        assert(has_key(b, a[la].0));
        assert(has_key(a, b[lb].0));
        let i = choose|i: int| 0 <= i < b.len() && #[trigger] b[i].0 == a[la].0;
        let j = choose|j: int| 0 <= j < a.len() && #[trigger] a[j].0 == b[lb].0;
        lemma_contents_at(b, i);
        if i < lb {
            assert(key_lt(b[i].0, b[lb].0));
            if j < la {
                assert(key_lt(a[j].0, a[la].0));
            }
            lemma_key_lt_asymmetric(a[la].0, b[lb].0);
            lemma_key_lt_irreflexive(a[la].0);
        }
        assert(a[la] == b[lb]);
        lemma_contents_drop_last(a);
        lemma_contents_drop_last(b);
        lemma_same_contents_same_entries(a.drop_last(), b.drop_last());
        assert(a =~= a.drop_last().push(a[la]));
        assert(b =~= b.drop_last().push(b[lb]));
    }
}

/// Rows put under two different keys give the same store in either order.
pub proof fn lemma_insert_order_irrelevant(
    start: Entries,
    a1: Entries,
    a: Entries,
    b1: Entries,
    b: Entries,
    k1: Seq<char>,
    r1: Seq<DataView>,
    k2: Seq<char>,
    r2: Seq<DataView>,
)
    requires
        k1 != k2,
        upserted(start, a1, k1, r1),
        upserted(a1, a, k2, r2),
        upserted(start, b1, k2, r2),
        upserted(b1, b, k1, r1),
    ensures
        a == b,
{
    assert(contents(a) =~= contents(b));
    lemma_same_contents_same_entries(a, b);
}

/// A read of `n` entries holds the row of each of them, whole and in place:
/// the row of entry `i` starts where the rows of the entries before it end.
pub proof fn lemma_flatten_holds_row(s: Entries, n: int, i: int)
    requires
        0 <= i < n <= s.len(),
    ensures
        flatten(s.take(i)).len() + s[i].1.len() <= flatten(s.take(n)).len(),
        flatten(s.take(n)).subrange(
            flatten(s.take(i)).len() as int,
            (flatten(s.take(i)).len() + s[i].1.len()) as int,
        ) == s[i].1,
    decreases n - i,
{
    lemma_flatten_step(s, n - 1);
    let off = flatten(s.take(i)).len() as int;
    if i == n - 1 {
        assert(flatten(s.take(n)).subrange(off, off + s[i].1.len()) =~= s[i].1);
    } else {
        lemma_flatten_holds_row(s, n - 1, i);
        assert(flatten(s.take(n)).subrange(off, off + s[i].1.len()) =~= flatten(
            s.take(n - 1),
        ).subrange(off, off + s[i].1.len()));
    }
}

/// A read with limit 0 gives nothing, and a read whose limit is at least the
/// number of keys gives the rows of all keys.
pub proof fn lemma_read_limits(s: Entries, limit: int)
    ensures
        flatten(s.take(taken(s, 0))) == Seq::<DataView>::empty(),
        limit >= s.len() ==> flatten(s.take(taken(s, limit))) == flatten(s),
{
    assert(s.take(0) =~= Entries::empty());
    assert(s.take(s.len() as int) =~= s);
}

/// After a row was put under a key, a read of all keys holds that row: the
/// key stands at exactly one position, with that row, and the read holds the
/// row where the rows of the keys before it end.
pub proof fn lemma_insert_then_read(
    before: Entries,
    after: Entries,
    key: Seq<char>,
    row: Seq<DataView>,
    limit: int,
) -> (i: int)
    requires
        upserted(before, after, key, row),
        limit >= after.len(),
    ensures
        0 <= i < after.len(),
        after[i] == (key, row),
        forall|j: int| 0 <= j < after.len() && #[trigger] after[j].0 == key ==> j == i,
        flatten(after.take(taken(after, limit))).subrange(
            flatten(after.take(i)).len() as int,
            (flatten(after.take(i)).len() + row.len()) as int,
        ) == row,
{
    assert(contents(after).contains_key(key));
    assert(has_key(after, key));
    let i = choose|i: int| 0 <= i < after.len() && #[trigger] after[i].0 == key;
    lemma_contents_at(after, i);
    lemma_flatten_holds_row(after, after.len() as int, i);
    i
}

/// Putting a second row under a key leaves one entry for that key, with the
/// second row, and every other entry as it was.
pub proof fn lemma_insert_twice(
    s0: Entries,
    s1: Entries,
    s2: Entries,
    key: Seq<char>,
    first: Seq<DataView>,
    second: Seq<DataView>,
) -> (i: int)
    requires
        upserted(s0, s1, key, first),
        upserted(s1, s2, key, second),
    ensures
        contents(s2) == contents(s0).insert(key, second),
        s2.len() == s1.len(),
        0 <= i < s1.len(),
        s1[i] == (key, first),
        s2 == s1.update(i, (key, second)),
        forall|j: int| 0 <= j < s2.len() && #[trigger] s2[j].0 == key ==> j == i,
{
    assert(contents(s2) =~= contents(s0).insert(key, second));
    assert(contents(s1).contains_key(key));
    assert(has_key(s1, key));
    let i = choose|i: int| 0 <= i < s1.len() && #[trigger] s1[i].0 == key;
    lemma_contents_at(s1, i);
    lemma_replace_row(s1, i, second);
    lemma_same_contents_same_entries(s1.update(i, (key, second)), s2);
    lemma_contents_at(s2, i);
    i
}

/// Reading one entry more appends that entry's row.
pub proof fn lemma_flatten_step(s: Entries, n: int)
    requires
        0 <= n < s.len(),
    ensures
        flatten(s.take(n + 1)) == flatten(s.take(n)) + s[n].1,
{
    assert(s.take(n + 1).drop_last() =~= s.take(n));
}

/// Puts a row under `key` at `pos`, the first position whose key does not come
/// before `key`: in place of the row that stands there under the same key, or
/// else in front of it.
fn put(data: &mut Vec<Entry>, pos: usize, key: String, row: Vec<Data>)
    requires
        keys_ascending(old(data).deep_view()),
        pos <= old(data).len(),
        forall|i: int| 0 <= i < pos ==> key_lt(#[trigger] old(data).deep_view()[i].0, key@),
        forall|i: int|
            pos <= i < old(data).len() ==> !key_lt(#[trigger] old(data).deep_view()[i].0, key@),
    ensures
        upserted(old(data).deep_view(), final(data).deep_view(), key@, row.deep_view()),
{
    let ghost s = data.deep_view();
    let ghost k = key@;
    let ghost e = (key@, row.deep_view());
    let replace = pos < data.len() && compare_keys(data[pos].key.as_str(), key.as_str())
        == KeyOrder::Same;
    assert(replace ==> s[pos as int].0 == k);
    assert(!replace && pos < s.len() ==> s[pos as int].0 != k);
    if replace {
        data[pos] = Entry { key, row };
        proof {
            lemma_replace_row(s, pos as int, e.1);
            assert(data.deep_view() =~= s.update(pos as int, e));
        }
    } else {
        data.insert(pos, Entry { key, row });
        let ghost t = data.deep_view();
        assert(t =~= s.insert(pos as int, e));
        assert forall|i: int| pos <= i < s.len() implies key_lt(k, #[trigger] s[i].0) by {
            lemma_key_lt_total(k, s[pos as int].0);
            if i > pos {
                assert(key_lt(s[pos as int].0, s[i].0));
                lemma_key_lt_transitive(k, s[pos as int].0, s[i].0);
            }
        }
        assert forall|i: int, j: int| 0 <= i < j < t.len() implies key_lt(
            #[trigger] t[i].0,
            #[trigger] t[j].0,
        ) by {
            if j < pos {
                assert(key_lt(s[i].0, s[j].0));
            } else if j == pos {
                assert(key_lt(s[i].0, k));
            } else if i < pos {
                assert(key_lt(s[i].0, s[j - 1].0));
            } else if i == pos {
                assert(key_lt(k, s[j - 1].0));
            } else {
                assert(key_lt(s[i - 1].0, s[j - 1].0));
            }
        }
        assert(!has_key(s, k)) by {
            if has_key(s, k) {
                let i = choose|i: int| 0 <= i < s.len() && #[trigger] s[i].0 == k;
                lemma_key_lt_irreflexive(k);
                if i < pos {
                    assert(key_lt(s[i].0, k));
                } else {
                    assert(key_lt(k, s[i].0));
                }
            }
        }
        assert forall|q: Seq<char>| has_key(t, q) <==> (q == k || has_key(s, q)) by {
            if has_key(t, q) {
                let i = choose|i: int| 0 <= i < t.len() && #[trigger] t[i].0 == q;
                if i < pos {
                    assert(s[i].0 == q);
                } else if i > pos {
                    assert(s[i - 1].0 == q);
                }
            }
            if q == k {
                assert(t[pos as int].0 == q);
            }
            if has_key(s, q) {
                let i = choose|i: int| 0 <= i < s.len() && #[trigger] s[i].0 == q;
                if i < pos {
                    assert(t[i].0 == q);
                } else {
                    assert(t[i + 1].0 == q);
                }
            }
        }
        assert forall|q: Seq<char>| has_key(t, q) implies contents(t)[q] == contents(s).insert(
            k,
            e.1,
        )[q] by {
            let i = choose|i: int| 0 <= i < t.len() && #[trigger] t[i].0 == q;
            lemma_contents_at(t, i);
            if i < pos {
                lemma_contents_at(s, i);
            } else if i > pos {
                lemma_contents_at(s, i - 1);
            }
        }
        assert(contents(t) =~= contents(s).insert(k, e.1));
    }
}

/// Appends a copy of each value of `row` to `out`.
fn append_row(out: &mut Vec<Data>, row: &Vec<Data>)
    ensures
        final(out).deep_view() == old(out).deep_view() + row.deep_view(),
{
    let ghost before = out.deep_view();
    let mut j: usize = 0;
    while j < row.len()
        invariant
            j <= row.len(),
            out.len() == before.len() + j,
            forall|k: int| 0 <= k < before.len() ==> #[trigger] out[k]@ == before[k],
            forall|k: int|
                before.len() <= k < out.len() ==> #[trigger] out[k]@ == row[k - before.len()]@,
        decreases row.len() - j,
    {
        out.push(row[j].clone());
        j += 1;
    }
    assert(out.deep_view() =~= before + row.deep_view());
}

impl SSTable {
    /// Holds of every store: its keys are in strictly ascending order.
    #[verifier::type_invariant]
    pub open spec fn ordered(self) -> bool {
        keys_ascending(self@)
    }

    /// An empty store.
    pub fn new() -> (res: Self)
        ensures
            res@ == Entries::empty(),
    {
        let res = SSTable { data: Vec::new() };
        assert(res@ =~= Entries::empty());
        res
    }

    /// The number of keys in the store.
    pub fn len(&self) -> (n: usize)
        ensures
            n == self@.len(),
    {
        self.data.len()
    }

    /// The first position whose key does not come before `key`.
    fn lower_bound(&self, key: &str) -> (pos: usize)
        ensures
            pos <= self@.len(),
            forall|i: int| 0 <= i < pos ==> key_lt(#[trigger] self@[i].0, key@),
            forall|i: int| pos <= i < self@.len() ==> !key_lt(#[trigger] self@[i].0, key@),
    {
        proof {
            use_type_invariant(self);
        }
        let mut lo: usize = 0;
        let mut hi: usize = self.data.len();
        while lo < hi
            invariant
                lo <= hi <= self.data.len(),
                self@.len() == self.data.len(),
                keys_ascending(self@),
                forall|i: int| 0 <= i < self.data.len() ==> self@[i].0 == #[trigger] self.data[i].key@,
                forall|i: int| 0 <= i < lo ==> key_lt(#[trigger] self@[i].0, key@),
                forall|i: int| hi <= i < self@.len() ==> !key_lt(#[trigger] self@[i].0, key@),
            decreases hi - lo,
        {
            let mid: usize = lo + (hi - lo) / 2;
            let ghost m = self@[mid as int].0;
            match compare_keys(self.data[mid].key.as_str(), key) {
                KeyOrder::Before => {
                    assert forall|i: int| 0 <= i < mid + 1 implies key_lt(
                        #[trigger] self@[i].0,
                        key@,
                    ) by {
                        if i < mid {
                            lemma_key_lt_transitive(self@[i].0, m, key@);
                        }
                    }
                    lo = mid + 1;
                },
                _ => {
                    assert forall|i: int| mid <= i < self@.len() implies !key_lt(
                        #[trigger] self@[i].0,
                        key@,
                    ) by {
                        if i > mid && key_lt(self@[i].0, key@) {
                            lemma_key_lt_transitive(m, self@[i].0, key@);
                        }
                    }
                    hi = mid;
                },
            }
        }
        lo
    }

    /// Puts `value` under `key`, in place of any row that stood there.
    pub fn insert(&mut self, key: String, value: &[Data])
        ensures
            upserted(old(self)@, final(self)@, key@, value.deep_view()),
    {
        proof {
            use_type_invariant(&*self);
        }
        let pos = self.lower_bound(key.as_str());
        let row = clone_row(value);
        let mut data: Vec<Entry> = Vec::new();
        std::mem::swap(&mut data, &mut self.data);
        put(&mut data, pos, key, row);
        std::mem::swap(&mut data, &mut self.data);
    }

    /// The rows of the first `limit` keys in ascending key order, one after
    /// the other; every row where `limit` is at least the number of keys.
    pub fn read_all(&self, limit: usize) -> (res: Vec<Data>)
        ensures
            keys_ascending(self@),
            self@.len() <= usize::MAX,
            res.deep_view() == flatten(self@.take(taken(self@, limit as int))),
    {
        proof {
            use_type_invariant(self);
        }
        let mut res: Vec<Data> = Vec::new();
        let mut i: usize = 0;
        assert(self@.take(0) =~= Entries::empty());
        while i < self.data.len() && i < limit
            invariant
                i <= self.data.len(),
                i <= limit,
                self@.len() == self.data.len(),
                forall|k: int| 0 <= k < self.data.len() ==> self@[k].1 == #[trigger] self.data[k].row.deep_view(),
                res.deep_view() == flatten(self@.take(i as int)),
            decreases self.data.len() - i,
        {
            append_row(&mut res, &self.data[i].row);
            proof {
                lemma_flatten_step(self@, i as int);
            }
            i += 1;
        }
        res
    }

    /// The keys of the store in ascending order.
    pub fn keys(&self) -> (res: Vec<String>)
        ensures
            keys_ascending(self@),
            res.deep_view() == self@.map_values(|e: (Seq<char>, Seq<DataView>)| e.0),
    {
        proof {
            use_type_invariant(self);
        }
        let mut res: Vec<String> = Vec::new();
        let mut i: usize = 0;
        while i < self.data.len()
            invariant
                i <= self.data.len(),
                res.len() == i,
                forall|k: int| 0 <= k < i ==> #[trigger] res[k]@ == self.data[k].key@,
            decreases self.data.len() - i,
        {
            res.push(self.data[i].key.clone());
            i += 1;
        }
        assert(res.deep_view() =~= self@.map_values(|e: (Seq<char>, Seq<DataView>)| e.0));
        res
    }
}

impl Default for SSTable {
    fn default() -> (res: Self)
        ensures
            res@ == Entries::empty(),
    {
        SSTable::new()
    }
}

} // verus!
