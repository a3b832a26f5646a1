//! Decimal numerals: the number that a run of digits stands for, and the
//! digits that stand for a number.

use vstd::prelude::*;
use crate::bytes::{is_digit, is_run, run_len, lemma_run_len, ByteClass};

verus! {

/// The number that a sequence of decimal digits stands for.
pub open spec fn digits_value(s: Seq<u8>) -> nat
    decreases s.len(),
{
    if s.len() == 0 {
        0
    } else {
        10 * digits_value(s.drop_last()) + (s.last() - 0x30) as nat
    }
}

/// The decimal digits of `n`, without leading zeros.
pub open spec fn decimal_digits(n: nat) -> Seq<u8>
    decreases n,
{
    if n < 10 {
        seq![(0x30 + n) as u8]
    } else {
        decimal_digits(n / 10).push((0x30 + n % 10) as u8)
    }
}

/// The decimal text of `v`, with a minus sign where it is negative.
pub open spec fn decimal_text(v: int) -> Seq<u8> {
    if v < 0 {
        seq!['-' as u8] + decimal_digits((-v) as nat)
    } else {
        decimal_digits(v as nat)
    }
}

/// The digits of a number are digits, and stand for that number.
pub proof fn lemma_decimal_digits(n: nat)
    ensures
        decimal_digits(n).len() >= 1,
        forall|i: int| 0 <= i < decimal_digits(n).len() ==> is_digit(#[trigger] decimal_digits(n)[i]),
        digits_value(decimal_digits(n)) == n,
        run_len(decimal_digits(n), ByteClass::Digit) == decimal_digits(n).len(),
    decreases n,
{
    let d = decimal_digits(n);
    if n < 10 {
        assert(d.drop_last() =~= Seq::<u8>::empty());
        assert(digits_value(d.drop_last()) == 0);
    } else {
        lemma_decimal_digits(n / 10);
        assert(d.drop_last() =~= decimal_digits(n / 10));
    }
    assert(is_run(d, ByteClass::Digit, d.len()));
    lemma_run_len(d, ByteClass::Digit);
}

/// A longer run of digits stands for no smaller a number.
pub proof fn lemma_digits_value_prefix(s: Seq<u8>, k: int)
    requires
        0 <= k <= s.len(),
        forall|i: int| 0 <= i < s.len() ==> is_digit(#[trigger] s[i]),
    ensures
        digits_value(s.take(k)) <= digits_value(s),
    decreases s.len() - k,
{
    if k < s.len() {
        lemma_digits_value_prefix(s, k + 1);
        assert(s.take(k + 1).drop_last() =~= s.take(k));
    } else {
        assert(s.take(k) =~= s);
    }
}

/// The number that the digits in `digits` stand for, where it fits an
/// `i32`; nothing where it does not, or where a byte is no digit, or where
/// there is no byte at all.
pub fn decimal_value(digits: &[u8]) -> (r: Option<i32>)
    ensures
        r is Some <==> {
            &&& digits@.len() > 0
            &&& forall|i: int| 0 <= i < digits@.len() ==> is_digit(#[trigger] digits@[i])
            &&& digits_value(digits@) <= i32::MAX
        },
        r matches Some(v) ==> v == digits_value(digits@),
{
    if digits.len() == 0 {
        return None;
    }
    let mut acc: i64 = 0;
    let mut i: usize = 0;
    while i < digits.len()
        invariant
            i <= digits.len(),
            forall|j: int| 0 <= j < i ==> is_digit(#[trigger] digits@[j]),
            acc == digits_value(digits@.take(i as int)),
            acc <= i32::MAX,
        decreases digits.len() - i,
    {
        let b = digits[i];
        if b < 0x30 || b > 0x39 {
            return None;
        }
        proof {
            assert(digits@.take(i + 1).drop_last() =~= digits@.take(i as int));
        }
        acc = acc * 10 + (b - 0x30) as i64;
        i += 1;
        if acc > i32::MAX as i64 {
            proof {
                if forall|j: int| 0 <= j < digits@.len() ==> is_digit(#[trigger] digits@[j]) {
                    lemma_digits_value_prefix(digits@, i as int);
                }
            }
            return None;
        }
    }
    assert(digits@.take(i as int) =~= digits@);
    Some(acc as i32)
}

/// The decimal text of `v`.
pub fn to_decimal(v: i32) -> (r: Vec<u8>)
    ensures
        r@ == decimal_text(v as int),
{
    let mut out: Vec<u8> = Vec::new();
    let magnitude: u32 = if v < 0 { (-(v as i64)) as u32 } else { v as u32 };
    let mut cur: u32 = magnitude;
    while cur >= 10
        invariant
            decimal_digits(magnitude as nat) == decimal_digits(cur as nat) + out@,
        decreases cur,
    {
        let d: u8 = (cur % 10) as u8;
        proof {
            let next = decimal_digits((cur / 10) as nat);
            assert(decimal_digits(cur as nat) + out@ =~= next + (seq![(0x30 + d) as u8] + out@));
        }
        out.insert(0, 0x30 + d);
        cur = cur / 10;
    }
    proof {
        assert(decimal_digits(cur as nat) + out@ =~= seq![(0x30 + cur) as u8] + out@);
    }
    out.insert(0, 0x30 + cur as u8);
    if v < 0 {
        out.insert(0, '-' as u8);
    }
    proof {
        assert(out@ =~= decimal_text(v as int));
    }
    out
}

} // verus!
