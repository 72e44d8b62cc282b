//! Reading a non-negative integer out of decimal text, as the `timeout`
//! field of a search request demands: an optional leading `+`, then one or
//! more ASCII digits, and a value that fits in `u64`.

use vstd::prelude::*;

verus! {

/// An ASCII decimal digit.
pub open spec fn is_dec_digit(c: char) -> bool {
    48 <= c as int && c as int <= 57
}

/// The numeric value of one ASCII decimal digit.
pub open spec fn dec_digit_val(c: char) -> int {
    c as int - 48
}

/// Every character of `s` is an ASCII decimal digit.
pub open spec fn all_dec_digits(s: Seq<char>) -> bool {
    forall|i: int| 0 <= i < s.len() ==> is_dec_digit(s[i])
}

/// The value that a digit string denotes, most significant digit first.
pub open spec fn dec_val(s: Seq<char>) -> int
    decreases s.len(),
{
    if s.len() == 0 {
        0
    } else {
        dec_val(s.drop_last()) * 10 + dec_digit_val(s.last())
    }
}

/// What a run of digits parses to: at least one digit, digits throughout,
/// and a value no larger than `u64::MAX`; otherwise nothing.
pub open spec fn parse_dec_digits(s: Seq<char>) -> Option<u64> {
    if s.len() >= 1 && all_dec_digits(s) && dec_val(s) <= u64::MAX {
        Some(dec_val(s) as u64)
    } else {
        None
    }
}

/// What a whole string parses to as a `u64`: an optional leading `+`, then
/// digits.
pub open spec fn parse_u64_of(s: Seq<char>) -> Option<u64> {
    if s.len() >= 1 && s[0] == '+' {
        parse_dec_digits(s.drop_first())
    } else {
        parse_dec_digits(s)
    }
}

/// The value of a digit string is never negative.
pub proof fn lemma_dec_val_nonneg(s: Seq<char>)
    requires
        all_dec_digits(s),
    ensures
        dec_val(s) >= 0,
    decreases s.len(),
{
    if s.len() > 0 {
        assert(all_dec_digits(s.drop_last()));
        lemma_dec_val_nonneg(s.drop_last());
    }
}

/// Extending a digit string can only grow its value: the value of any
/// prefix is a lower bound. So once a prefix has overflowed `u64`, the
/// whole string has.
pub proof fn lemma_dec_val_take_le(s: Seq<char>, i: int)
    requires
        all_dec_digits(s),
        0 <= i <= s.len(),
    ensures
        dec_val(s.take(i)) <= dec_val(s),
    decreases s.len(),
{
    if i == s.len() {
        assert(s.take(i) =~= s);
    } else {
        assert(all_dec_digits(s.drop_last()));
        assert(s.drop_last().take(i) =~= s.take(i));
        lemma_dec_val_take_le(s.drop_last(), i);
        lemma_dec_val_nonneg(s.drop_last());
        assert(dec_val(s.drop_last()) <= dec_val(s));
    }
}

/// Parses `s` as a non-negative decimal integer: an optional leading `+`,
/// then one or more ASCII digits denoting a value that fits in `u64`.
pub fn parse_u64(s: &str) -> (r: Option<u64>)
    ensures
        r == parse_u64_of(s@),
{
    let n: usize = s.unicode_len();
    let start: usize = if n >= 1 && s.get_char(0) == '+' {
        1
    } else {
        0
    };
    let ghost t: Seq<char> = if start == 1 {
        s@.drop_first()
    } else {
        s@
    };
    proof {
        assert(parse_u64_of(s@) == parse_dec_digits(t));
    }
    if n == start {
        assert(t.len() == 0);
        return None;
    }
    let mut acc: u128 = 0;
    let mut i: usize = start;
    proof {
        assert(t.take(0) =~= Seq::<char>::empty());
    }
    while i < n
        invariant
            n == s@.len(),
            start <= i <= n,
            start <= 1,
            t == (if start == 1 {
                s@.drop_first()
            } else {
                s@
            }),
            t.len() == n - start,
            parse_u64_of(s@) == parse_dec_digits(t),
            all_dec_digits(t.take(i - start)),
            acc == dec_val(t.take(i - start)),
            acc <= u64::MAX,
        decreases n - i,
    {
        let ghost j: int = i - start;
        let c = s.get_char(i);
        proof {
            assert(t[j] == s@[i as int]);
        }
        let u: u32 = c as u32;
        if u < 48 || u > 57 {
            proof {
                assert(!is_dec_digit(t[j]));
                assert(!all_dec_digits(t));
            }
            return None;
        }
        let d: u128 = (u - 48) as u128;
        let next: u128 = acc * 10 + d;
        proof {
            assert(t.take(j + 1).drop_last() =~= t.take(j));
            assert(t.take(j + 1).last() == t[j]);
            assert(all_dec_digits(t.take(j + 1)));
            assert(next == dec_val(t.take(j + 1)));
        }
        if next > u64::MAX as u128 {
            proof {
                if all_dec_digits(t) {
                    lemma_dec_val_take_le(t, j + 1);
                    assert(dec_val(t) > u64::MAX);
                }
            }
            return None;
        }
        acc = next;
        i += 1;
    }
    proof {
        assert(t.take(n - start) =~= t);
    }
    Some(acc as u64)
}

} // verus!
