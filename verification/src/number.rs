//! Integer literals: non-empty runs of decimal digits that fit an `i64`.
use vstd::prelude::*;
use vstd::string::is_ascii_spec_bytes;
use vstd::utf8::is_ascii_chars;

verus! {

/// Whether `c` is one of `0` to `9`.
pub open spec fn is_digit(c: char) -> bool {
    '0' <= c <= '9'
}

/// Whether `s` is made of decimal digits only.
pub open spec fn all_digits(s: Seq<char>) -> bool {
    forall|i: int| 0 <= i < s.len() ==> is_digit(#[trigger] s[i])
}

/// The number that a run of decimal digits writes, the first digit weighing
/// most.
pub open spec fn digits_value(s: Seq<char>) -> nat
    decreases s.len(),
{
    if s.len() == 0 {
        0
    } else {
        (digits_value(s.drop_last()) * 10 + (s.last() as u8 - 48)) as nat
    }
}

/// The integer that a literal writes: its value where it is a non-empty run
/// of decimal digits that fits an `i64`, and nothing otherwise.
pub open spec fn integer_literal(s: Seq<char>) -> Option<i64> {
    if s.len() > 0 && all_digits(s) && digits_value(s) <= i64::MAX {
        Some(digits_value(s) as i64)
    } else {
        None
    }
}

/// A run of digits writes at least what any of its beginnings writes.
pub proof fn lemma_digits_value_grows(s: Seq<char>, n: int)
    requires
        all_digits(s),
        0 <= n <= s.len(),
    ensures
        digits_value(s.take(n)) <= digits_value(s),
    decreases s.len() - n,
{
    if n < s.len() {
        assert(s.take(n + 1).drop_last() =~= s.take(n));
        assert(is_digit(s[n]));
        lemma_digits_value_grows(s, n + 1);
    } else {
        assert(s.take(n) =~= s);
    }
}

/// Reads an integer literal.
pub fn parse_integer(text: &str) -> (r: Option<i64>)
    ensures
        r == integer_literal(text@),
{
    if !text.is_ascii() {
        assert(!all_digits(text@)) by {
            if all_digits(text@) {
                assert forall|i: int| 0 <= i < text@.len() implies '\0' <= #[trigger] text@[i]
                    <= '\u{7f}' by {
                    assert(is_digit(text@[i]));
                }
                assert(is_ascii_chars(text@));
            }
        }
        return None;
    }
    let bytes = text.as_bytes();
    proof {
        is_ascii_spec_bytes(text);
    }
    if bytes.len() == 0 {
        return None;
    }
    let mut acc: i64 = 0;
    let mut i: usize = 0;
    assert(text@.take(0) =~= Seq::<char>::empty());
    while i < bytes.len()
        invariant
            i <= bytes.len(),
            bytes.len() == text@.len(),
            forall|j: int| 0 <= j < bytes.len() ==> bytes[j] == #[trigger] text@[j] as u8,
            forall|j: int| 0 <= j < bytes.len() ==> '\0' <= #[trigger] text@[j] <= '\u{7f}',
            all_digits(text@.take(i as int)),
            0 <= acc,
            acc == digits_value(text@.take(i as int)),
        decreases bytes.len() - i,
    {
        let b = bytes[i];
        if b < 48 || b > 57 {
            assert(!is_digit(text@[i as int]));
            return None;
        }
        let d: i64 = (b - 48) as i64;
        proof {
            assert(text@.take(i + 1).drop_last() =~= text@.take(i as int));
            assert(text@.take(i + 1).last() == text@[i as int]);
            assert(is_digit(text@[i as int]));
            assert forall|j: int| 0 <= j < i + 1 implies is_digit(
                #[trigger] text@.take(i + 1)[j],
            ) by {
                if j < i {
                    assert(is_digit(text@.take(i as int)[j]));
                }
            }
        }
        if acc > (i64::MAX - d) / 10 {
            proof {
                assert(acc * 10 + d > i64::MAX);
                if all_digits(text@) {
                    lemma_digits_value_grows(text@, i + 1);
                }
            }
            return None;
        }
        acc = acc * 10 + d;
        i += 1;
    }
    assert(text@.take(i as int) =~= text@);
    Some(acc)
}

} // verus!
