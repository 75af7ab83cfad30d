//! Reading decimal numbers from text.
//!
//! A number is an optional sign, digits, and optionally a point and more
//! digits, with at least one digit in all. Its value is taken exactly and
//! rounded towards zero to a step of 2^-32; a value beyond the range becomes
//! the end of the range.

use vstd::prelude::*;
use crate::fixed::{clamp_raw, saturate, Fixed, ONE};
use crate::text::{find_char, index_of, lemma_index_of};

verus! {

pub open spec fn is_digit(c: char) -> bool {
    '0' <= c && c <= '9'
}

/// The value of a decimal digit.
pub open spec fn digit(c: char) -> int {
    c as int - '0' as int
}

pub open spec fn all_digits(s: Seq<char>) -> bool {
    forall|i: int| 0 <= i < s.len() ==> is_digit(#[trigger] s[i])
}

/// The whole number that the digits `s` spell; 0 for none.
pub open spec fn whole_value(s: Seq<char>) -> int
    decreases s.len(),
{
    if s.len() == 0 {
        0
    } else {
        10 * whole_value(s.drop_last()) + digit(s.last())
    }
}

/// The fraction that the digits `s` spell behind the point, in raw steps,
/// rounded down.
pub open spec fn fraction_raw(s: Seq<char>) -> int
    decreases s.len(),
{
    if s.len() == 0 {
        0
    } else {
        (digit(s[0]) * ONE + fraction_raw(s.drop_first())) / 10
    }
}

/// The digits behind the first point of `s`; none where it has no point.
pub open spec fn fraction_digits(s: Seq<char>) -> Seq<char> {
    if index_of(s, '.') < s.len() {
        s.skip(index_of(s, '.') + 1)
    } else {
        Seq::empty()
    }
}

/// Whether `s` is written as a number without a sign.
pub open spec fn is_magnitude(s: Seq<char>) -> bool {
    &&& all_digits(s.take(index_of(s, '.')))
    &&& all_digits(fraction_digits(s))
    &&& s.take(index_of(s, '.')).len() + fraction_digits(s).len() > 0
}

/// The value of a number without a sign, in raw steps.
pub open spec fn magnitude_raw(s: Seq<char>) -> int {
    whole_value(s.take(index_of(s, '.'))) * ONE + fraction_raw(fraction_digits(s))
}

/// `s` without the sign it may begin with.
pub open spec fn unsigned_part(s: Seq<char>) -> Seq<char> {
    if s.len() > 0 && (s[0] == '-' || s[0] == '+') {
        s.drop_first()
    } else {
        s
    }
}

/// The value of the number that `s` spells, in raw steps within the range;
/// `None` where `s` is not a number.
pub open spec fn number_raw(s: Seq<char>) -> Option<int> {
    if !is_magnitude(unsigned_part(s)) {
        None
    } else if s.len() > 0 && s[0] == '-' {
        Some(clamp_raw(-magnitude_raw(unsigned_part(s))))
    } else {
        Some(clamp_raw(magnitude_raw(unsigned_part(s))))
    }
}

/// The number that `s` spells.
pub open spec fn number_of(s: Seq<char>) -> Option<Fixed> {
    match number_raw(s) {
        Some(raw) => Some(Fixed { raw: raw as i64 }),
        None => None,
    }
}

pub proof fn lemma_whole_value_bounds(s: Seq<char>)
    requires
        all_digits(s),
    ensures
        whole_value(s) >= 0,
    decreases s.len(),
{
    if s.len() > 0 {
        assert(is_digit(s[s.len() - 1]));
        assert forall|i: int| 0 <= i < s.drop_last().len() implies is_digit(
            #[trigger] s.drop_last()[i],
        ) by {
            assert(s.drop_last()[i] == s[i]);
        }
        lemma_whole_value_bounds(s.drop_last());
    }
}

pub proof fn lemma_fraction_raw_bounds(s: Seq<char>)
    requires
        all_digits(s),
    ensures
        0 <= fraction_raw(s) < ONE,
    decreases s.len(),
{
    if s.len() > 0 {
        assert(is_digit(s[0]));
        assert forall|i: int| 0 <= i < s.drop_first().len() implies is_digit(
            #[trigger] s.drop_first()[i],
        ) by {
            assert(s.drop_first()[i] == s[i + 1]);
        }
        lemma_fraction_raw_bounds(s.drop_first());
    }
}

/// Ten to the power of `n`.
pub open spec fn pow10(n: nat) -> int
    decreases n,
{
    if n == 0 {
        1
    } else {
        10 * pow10((n - 1) as nat)
    }
}

pub proof fn lemma_pow10_positive(n: nat)
    ensures
        pow10(n) > 0,
    decreases n,
{
    if n > 0 {
        lemma_pow10_positive((n - 1) as nat);
    }
}

/// The value of a run of digits, told from its first digit.
pub proof fn lemma_whole_value_front(s: Seq<char>)
    requires
        s.len() > 0,
    ensures
        whole_value(s) == digit(s[0]) * pow10((s.len() - 1) as nat) + whole_value(s.drop_first()),
    decreases s.len(),
{
    if s.len() == 1 {
        assert(s.drop_last() =~= Seq::<char>::empty());
        assert(s.drop_first() =~= Seq::<char>::empty());
        assert(whole_value(s.drop_last()) == 0);
        assert(whole_value(s.drop_first()) == 0);
        assert(s.last() == s[0]);
        assert(pow10(0) == 1);
        assert(digit(s[0]) * 1 == digit(s[0]));
    } else {
        let init = s.drop_last();
        let tail = s.drop_first();
        lemma_whole_value_front(init);
        assert(init[0] == s[0]);
        assert(tail.drop_last() =~= init.drop_first());
        assert(tail.last() == s.last());
        let high = pow10((s.len() - 2) as nat);
        let first = digit(s[0]);
        let last = digit(s.last());
        let inner = whole_value(init.drop_first());
        assert(pow10((s.len() - 1) as nat) == 10 * high);
        assert(whole_value(init) == first * high + inner);
        assert(whole_value(s) == 10 * whole_value(init) + last);
        assert(whole_value(tail) == 10 * inner + last);
        assert(10 * (first * high + inner) + last == first * (10 * high) + (10 * inner + last))
            by (nonlinear_arith);
    }
}

/// The fraction of a number is the value of its digits behind the point,
/// counted in steps of 2^-32 and rounded down: for `k` digits that spell the
/// whole number `n`, it is the whole part of `n * 2^32 / 10^k`.
pub proof fn lemma_fraction_raw_is_floor(s: Seq<char>)
    requires
        all_digits(s),
    ensures
        fraction_raw(s) == (whole_value(s) * ONE) / pow10(s.len()),
    decreases s.len(),
{
    if s.len() > 0 {
        let rest = s.drop_first();
        assert(is_digit(s[0]));
        assert forall|i: int| 0 <= i < rest.len() implies is_digit(#[trigger] rest[i]) by {
            assert(rest[i] == s[i + 1]);
        }
        lemma_fraction_raw_is_floor(rest);
        lemma_whole_value_front(s);
        lemma_whole_value_bounds(rest);
        lemma_pow10_positive(rest.len());
        let p = pow10(rest.len());
        let d = digit(s[0]);
        let w = whole_value(rest);
        let one = ONE as int;
        let x = (d * p + w) * one;
        assert(pow10(s.len()) == 10 * p);
        assert(x >= 0) by (nonlinear_arith)
            requires
                x == (d * p + w) * one,
                d >= 0,
                p > 0,
                w >= 0,
                one > 0,
        ;
        assert(x == w * one + (d * one) * p) by (nonlinear_arith)
            requires
                x == (d * p + w) * one,
        ;
        vstd::arithmetic::div_mod::lemma_hoist_over_denominator(w * one, d * one, p as nat);
        vstd::arithmetic::div_mod::lemma_div_denominator(x, p, 10);
        assert(p * 10 == 10 * p);
        assert(x / p == d * one + (w * one) / p);
        assert((x / p) / 10 == x / (p * 10));
    }
}

fn digit_of(c: char) -> (d: Option<u8>)
    ensures
        match d {
            Some(v) => is_digit(c) && v == digit(c) && v < 10,
            None => !is_digit(c),
        },
{
    if c >= '0' && c <= '9' {
        Some((c as u32 - '0' as u32) as u8)
    } else {
        None
    }
}

/// Reads the digits `chars[from..to]` as a whole number, which stops growing
/// at 2^31.
fn read_whole(chars: &Vec<char>, from: usize, to: usize) -> (value: Option<u64>)
    requires
        from <= to <= chars.len(),
    ensures
        match value {
            Some(v) => all_digits(chars@.subrange(from as int, to as int)) && v <= 2147483648 && (
            v == whole_value(chars@.subrange(from as int, to as int)) || (v == 2147483648
                && whole_value(chars@.subrange(from as int, to as int)) >= 2147483648)),
            None => !all_digits(chars@.subrange(from as int, to as int)),
        },
{
    let mut value: u64 = 0;
    let mut i: usize = from;
    while i < to
        invariant
            from <= i <= to <= chars.len(),
            all_digits(chars@.subrange(from as int, i as int)),
            value <= 2147483648,
            value == whole_value(chars@.subrange(from as int, i as int)) || (value == 2147483648
                && whole_value(chars@.subrange(from as int, i as int)) >= 2147483648),
        decreases to - i,
    {
        let ghost before = chars@.subrange(from as int, i as int);
        let ghost after = chars@.subrange(from as int, i + 1);
        assert(after.drop_last() =~= before);
        assert(after.last() == chars@[i as int]);
        match digit_of(chars[i]) {
            None => {
                assert(chars@.subrange(from as int, to as int)[i - from] == chars@[i as int]);
                return None;
            },
            Some(d) => {
                assert forall|k: int| 0 <= k < after.len() implies is_digit(#[trigger] after[k]) by {
                    if k < before.len() {
                        assert(after[k] == before[k]);
                    }
                }
                let next: u64 = value * 10 + d as u64;
                value = if next > 2147483648 {
                    2147483648
                } else {
                    next
                };
            },
        }
        i += 1;
    }
    Some(value)
}

/// Reads the digits `chars[from..to]` as what stands behind a point.
fn read_fraction(chars: &Vec<char>, from: usize, to: usize) -> (value: Option<u64>)
    requires
        from <= to <= chars.len(),
    ensures
        match value {
            Some(v) => all_digits(chars@.subrange(from as int, to as int)) && v == fraction_raw(
                chars@.subrange(from as int, to as int),
            ) && v < ONE,
            None => !all_digits(chars@.subrange(from as int, to as int)),
        },
{
    let mut value: u64 = 0;
    let mut i: usize = to;
    while i > from
        invariant
            from <= i <= to <= chars.len(),
            all_digits(chars@.subrange(i as int, to as int)),
            value == fraction_raw(chars@.subrange(i as int, to as int)),
            value < ONE,
        decreases i - from,
    {
        let ghost before = chars@.subrange(i as int, to as int);
        let ghost after = chars@.subrange(i - 1, to as int);
        assert(after.drop_first() =~= before);
        assert(after[0] == chars@[i - 1]);
        match digit_of(chars[i - 1]) {
            None => {
                assert(chars@.subrange(from as int, to as int)[i - 1 - from] == chars@[i - 1]);
                return None;
            },
            Some(d) => {
                assert forall|k: int| 0 <= k < after.len() implies is_digit(#[trigger] after[k]) by {
                    if k > 0 {
                        assert(after[k] == before[k - 1]);
                    }
                }
                value = (d as u64 * 4294967296u64 + value) / 10;
            },
        }
        i -= 1;
    }
    Some(value)
}

/// Reads `chars[from..to]` as a number.
pub fn parse_number(chars: &Vec<char>, from: usize, to: usize) -> (value: Option<Fixed>)
    requires
        from <= to <= chars.len(),
    ensures
        value == number_of(chars@.subrange(from as int, to as int)),
{
    let ghost s = chars@.subrange(from as int, to as int);
    let negative = from < to && chars[from] == '-';
    let signed = from < to && (chars[from] == '-' || chars[from] == '+');
    let start: usize = if signed {
        from + 1
    } else {
        from
    };
    assert(from < to ==> s[0] == chars@[from as int]);
    let ghost u = unsigned_part(s);
    assert(u =~= chars@.subrange(start as int, to as int));
    let dot = find_char(chars, start, to, '.');
    proof {
        lemma_index_of(u, '.');
    }
    assert(u.take(index_of(u, '.')) =~= chars@.subrange(start as int, dot as int));
    let fraction_from: usize = if dot < to {
        dot + 1
    } else {
        to
    };
    assert(fraction_digits(u) =~= chars@.subrange(fraction_from as int, to as int));
    if (dot - start) + (to - fraction_from) == 0 {
        return None;
    }
    let whole = match read_whole(chars, start, dot) {
        None => {
            return None;
        },
        Some(w) => w,
    };
    let fraction = match read_fraction(chars, fraction_from, to) {
        None => {
            return None;
        },
        Some(f) => f,
    };
    proof {
        lemma_fraction_raw_bounds(fraction_digits(u));
    }
    let magnitude: i128 = whole as i128 * 4294967296i128 + fraction as i128;
    if negative {
        Some(saturate(-magnitude))
    } else {
        Some(saturate(magnitude))
    }
}

/// Reads `text` as a number.
pub fn parse_text(text: &Vec<char>) -> (value: Option<Fixed>)
    ensures
        value == number_of(text@),
{
    assert(text@.subrange(0, text@.len() as int) =~= text@);
    parse_number(text, 0, text.len())
}

} // verus!
