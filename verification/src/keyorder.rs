//! The order of keys: byte-wise lexicographic order of their UTF-8 encoding.
use vstd::prelude::*;
use vstd::utf8::{encode_utf8, decode_utf8, encode_utf8_decode_utf8};

verus! {

/// How one key stands to another.
#[derive(Debug, Clone, Copy, PartialEq, Eq, Structural)]
pub enum KeyOrder {
    Before,
    Same,
    After,
}

/// Lexicographic order of two byte sequences that agree on their first `i`
/// bytes: the first differing byte decides, and a proper prefix comes first.
pub open spec fn bytes_lt_from(a: Seq<u8>, b: Seq<u8>, i: int) -> bool
    decreases a.len() - i,
{
    if i < 0 || i >= b.len() {
        false
    } else if i >= a.len() {
        true
    } else if a[i] != b[i] {
        a[i] < b[i]
    } else {
        bytes_lt_from(a, b, i + 1)
    }
}

/// Lexicographic order of byte sequences.
pub open spec fn bytes_lt(a: Seq<u8>, b: Seq<u8>) -> bool {
    bytes_lt_from(a, b, 0)
}

/// The order of keys: `a` comes strictly before `b`.
pub open spec fn key_lt(a: Seq<char>, b: Seq<char>) -> bool {
    bytes_lt(encode_utf8(a), encode_utf8(b))
}

/// Two byte sequences that agree from `i` on, given that they agree before.
spec fn same_from(a: Seq<u8>, b: Seq<u8>, i: int) -> bool {
    a.len() == b.len() && forall|j: int| i <= j < a.len() ==> a[j] == b[j]
}

proof fn lemma_bytes_trichotomy_from(a: Seq<u8>, b: Seq<u8>, i: int)
    requires
        0 <= i <= a.len(),
        i <= b.len(),
    ensures
        bytes_lt_from(a, b, i) || bytes_lt_from(b, a, i) || same_from(a, b, i),
        !(bytes_lt_from(a, b, i) && bytes_lt_from(b, a, i)),
        same_from(a, b, i) ==> !bytes_lt_from(a, b, i) && !bytes_lt_from(b, a, i),
    decreases a.len() - i,
{
    if i < a.len() && i < b.len() && a[i] == b[i] {
        lemma_bytes_trichotomy_from(a, b, i + 1);
    }
}

proof fn lemma_bytes_transitive_from(a: Seq<u8>, b: Seq<u8>, c: Seq<u8>, i: int)
    requires
        0 <= i,
        bytes_lt_from(a, b, i),
        bytes_lt_from(b, c, i),
    ensures
        bytes_lt_from(a, c, i),
    decreases a.len() - i,
{
    if i < a.len() && a[i] == b[i] && b[i] == c[i] {
        lemma_bytes_transitive_from(a, b, c, i + 1);
    }
}

/// No key comes before itself.
pub proof fn lemma_key_lt_irreflexive(a: Seq<char>)
    ensures
        !key_lt(a, a),
{
    lemma_bytes_trichotomy_from(encode_utf8(a), encode_utf8(a), 0);
}

/// If `a` comes before `b`, then `b` does not come before `a`.
pub proof fn lemma_key_lt_asymmetric(a: Seq<char>, b: Seq<char>)
    ensures
        !(key_lt(a, b) && key_lt(b, a)),
{
    lemma_bytes_trichotomy_from(encode_utf8(a), encode_utf8(b), 0);
}

/// The order of keys is transitive.
pub proof fn lemma_key_lt_transitive(a: Seq<char>, b: Seq<char>, c: Seq<char>)
    requires
        key_lt(a, b),
        key_lt(b, c),
    ensures
        key_lt(a, c),
{
    lemma_bytes_transitive_from(encode_utf8(a), encode_utf8(b), encode_utf8(c), 0);
}

/// Two keys with the same encoding are the same key.
pub proof fn lemma_encoding_injective(a: Seq<char>, b: Seq<char>)
    requires
        encode_utf8(a) =~= encode_utf8(b),
    ensures
        a == b,
{
    encode_utf8_decode_utf8(a);
    encode_utf8_decode_utf8(b);
    assert(decode_utf8(encode_utf8(a)) == decode_utf8(encode_utf8(b)));
}

/// Of two different keys one comes before the other.
pub proof fn lemma_key_lt_total(a: Seq<char>, b: Seq<char>)
    ensures
        a == b || key_lt(a, b) || key_lt(b, a),
{
    let x = encode_utf8(a);
    let y = encode_utf8(b);
    lemma_bytes_trichotomy_from(x, y, 0);
    if same_from(x, y, 0) {
        lemma_encoding_injective(a, b);
    }
}

/// Compares two keys.
pub fn compare_keys(a: &str, b: &str) -> (r: KeyOrder)
    ensures
        r == KeyOrder::Before <==> key_lt(a@, b@),
        r == KeyOrder::Same <==> a@ == b@,
        r == KeyOrder::After <==> key_lt(b@, a@),
{
    let x = a.as_bytes();
    let y = b.as_bytes();
    proof {
        lemma_key_lt_total(a@, b@);
        lemma_key_lt_asymmetric(a@, b@);
        lemma_key_lt_irreflexive(a@);
    }
    let mut i: usize = 0;
    while i < x.len() && i < y.len()
        invariant
            i <= x.len(),
            i <= y.len(),
            x@ == encode_utf8(a@),
            y@ == encode_utf8(b@),
            bytes_lt_from(x@, y@, i as int) == key_lt(a@, b@),
            bytes_lt_from(y@, x@, i as int) == key_lt(b@, a@),
        decreases x.len() - i,
    {
        if x[i] < y[i] {
            return KeyOrder::Before;
        }
        if x[i] > y[i] {
            return KeyOrder::After;
        }
        i += 1;
    }
    if x.len() < y.len() {
        KeyOrder::Before
    } else if x.len() > y.len() {
        KeyOrder::After
    } else {
        KeyOrder::Same
    }
}

} // verus!
