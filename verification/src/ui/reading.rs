//! Reading numbers from text that was typed into a field.

use vstd::prelude::*;
use crate::units::SCALE;

verus! {

/// Whether `c` is one of the digits `0` to `9`.
pub open spec fn is_digit(c: char) -> bool {
    '0' <= c <= '9'
}

/// The value of a digit.
pub open spec fn digit_of(c: char) -> nat {
    (c as int - '0' as int) as nat
}

/// Whether the text holds digits and nothing else.
pub open spec fn all_digits(text: Seq<char>) -> bool {
    forall|i: int| 0 <= i < text.len() ==> is_digit(#[trigger] text[i])
}

/// The number that a run of digits spells in base ten; the empty run spells
/// zero.
pub open spec fn digits_value(text: Seq<char>) -> nat
    decreases text.len(),
{
    if text.len() == 0 {
        0
    } else {
        digits_value(text.drop_last()) * 10 + digit_of(text.last())
    }
}

/// The whole number that the text spells: one digit or more, and nothing
/// else.
pub open spec fn spelled_natural(text: Seq<char>) -> Option<int> {
    if text.len() > 0 && all_digits(text) {
        Some(digits_value(text) as int)
    } else {
        None
    }
}

/// The whole number that the text spells: one digit or more, with or
/// without a `-` before them, and nothing else.
pub open spec fn spelled_integer(text: Seq<char>) -> Option<int> {
    if text.len() > 0 && text[0] == '-' {
        match spelled_natural(text.skip(1)) {
            Some(size) => Some(-size),
            None => None,
        }
    } else {
        spelled_natural(text)
    }
}

/// The place of the first `.` at or after `from`, and the length of the
/// text where there is none.
pub open spec fn dot_at(text: Seq<char>, from: int) -> int
    decreases text.len() - from,
{
    if from < 0 || from >= text.len() {
        text.len() as int
    } else if text[from] == '.' {
        from
    } else {
        dot_at(text, from + 1)
    }
}

/// What one digit in the `k`-th decimal place counts for, in millionths of
/// the digit before it: `10^(6 - k)`.
pub open spec fn place_weight(k: int) -> int {
    if k <= 0 {
        1_000_000
    } else if k == 1 {
        100_000
    } else if k == 2 {
        10_000
    } else if k == 3 {
        1_000
    } else if k == 4 {
        100
    } else if k == 5 {
        10
    } else {
        1
    }
}

/// The millionths that the digits after the point stand for. Digits past
/// the sixth place are dropped.
pub open spec fn fraction_micros(digits: Seq<char>) -> int {
    let places = if digits.len() <= 6 {
        digits.len() as int
    } else {
        6
    };
    digits_value(digits.take(places)) * place_weight(places)
}

/// The number that the text spells, in millionths: digits with at most one
/// `.` among them, with or without a `-` before them. There is one digit at
/// least, before the point or after it.
pub open spec fn spelled_decimal(text: Seq<char>) -> Option<int> {
    let start: int = if text.len() > 0 && text[0] == '-' {
        1
    } else {
        0
    };
    let dot = dot_at(text, start);
    let whole = text.subrange(start, dot);
    let fraction = if dot < text.len() {
        text.subrange(dot + 1, text.len() as int)
    } else {
        Seq::empty()
    };
    if all_digits(whole) && all_digits(fraction) && whole.len() + fraction.len() > 0 {
        let size = digits_value(whole) * SCALE + fraction_micros(fraction);
        if start == 1 {
            Some(-size)
        } else {
            Some(size)
        }
    } else {
        None
    }
}

/// A longer run of digits spells no less than its beginning does.
pub proof fn lemma_digits_value_grows(text: Seq<char>, k: int)
    requires
        0 <= k <= text.len(),
    ensures
        digits_value(text.take(k)) <= digits_value(text),
    decreases text.len() - k,
{
    if k < text.len() {
        lemma_digits_value_grows(text, k + 1);
        assert(text.take(k + 1).drop_last() =~= text.take(k));
    } else {
        assert(text.take(k) =~= text);
    }
}

/// Whether `c` is a digit.
pub fn is_digit_char(c: char) -> (yes: bool)
    ensures
        yes == is_digit(c),
{
    let code: u32 = c as u32;
    code >= 48 && code <= 57
}

/// The number spelled by the characters from `from` up to `to`, where they
/// are digits and the number is `limit` at most.
pub fn read_digits(text: &Vec<char>, from: usize, to: usize, limit: u64) -> (value: Option<u64>)
    requires
        from <= to <= text@.len(),
    ensures
        value.is_some() <==> (all_digits(text@.subrange(from as int, to as int)) && digits_value(
            text@.subrange(from as int, to as int),
        ) <= limit),
        value.is_some() ==> value.unwrap() == digits_value(text@.subrange(from as int, to as int)),
{
    let ghost run = text@.subrange(from as int, to as int);
    let mut acc: u64 = 0;
    let mut i: usize = from;
    assert(text@.subrange(from as int, from as int) =~= Seq::<char>::empty());
    while i < to
        invariant
            from <= i <= to <= text@.len(),
            run == text@.subrange(from as int, to as int),
            all_digits(text@.subrange(from as int, i as int)),
            acc == digits_value(text@.subrange(from as int, i as int)),
            acc <= limit,
        decreases to - i,
    {
        let c: char = text[i];
        let ghost seen = text@.subrange(from as int, i as int);
        let ghost next = text@.subrange(from as int, i + 1);
        proof {
            assert(next.drop_last() =~= seen);
            assert(next.last() == c);
            assert(run[i - from] == c);
            assert(run.take(i + 1 - from) =~= next);
        }
        if !is_digit_char(c) {
            return None;
        }
        let digit: u64 = (c as u32 - 48) as u64;
        assert(digit == digit_of(c));
        assert(all_digits(next)) by {
            assert forall|j: int| 0 <= j < next.len() implies is_digit(#[trigger] next[j]) by {
                if j < seen.len() {
                    assert(next[j] == seen[j]);
                }
            }
        }
        if digit > limit || acc > (limit - digit) / 10 {
            proof {
                // the digits read so far already spell more than the limit
                assert(digits_value(next) > limit);
                lemma_digits_value_grows(run, i + 1 - from);
            }
            return None;
        }
        acc = acc * 10 + digit;
        i += 1;
    }
    Some(acc)
}

/// The whole number between `low` and `high` that the text spells.
pub fn read_integer(text: &Vec<char>, low: i64, high: i64) -> (value: Option<i64>)
    requires
        low <= 0 <= high,
    ensures
        value.is_some() <==> (spelled_integer(text@).is_some() && low <= spelled_integer(
            text@,
        ).unwrap() <= high),
        value.is_some() ==> value.unwrap() == spelled_integer(text@).unwrap(),
{
    let len: usize = text.len();
    if len > 0 && text[0] == '-' {
        if len == 1 {
            assert(text@.skip(1).len() == 0);
            return None;
        }
        assert(text@.subrange(1, len as int) =~= text@.skip(1));
        let limit: u64 = crate::units::magnitude_of(low);
        match read_digits(text, 1, len, limit) {
            None => None,
            Some(size) => {
                if size == 0x8000_0000_0000_0000 {
                    Some(i64::MIN)
                } else {
                    Some(-(size as i64))
                }
            },
        }
    } else {
        if len == 0 {
            return None;
        }
        assert(text@.subrange(0, len as int) =~= text@);
        match read_digits(text, 0, len, high as u64) {
            None => None,
            Some(size) => Some(size as i64),
        }
    }
}

/// The whole number of at most `high` that the text spells.
pub fn read_natural(text: &Vec<char>, high: u64) -> (value: Option<u64>)
    ensures
        value.is_some() <==> (spelled_natural(text@).is_some() && spelled_natural(text@).unwrap()
            <= high),
        value.is_some() ==> value.unwrap() == spelled_natural(text@).unwrap(),
{
    let len: usize = text.len();
    if len == 0 {
        return None;
    }
    assert(text@.subrange(0, len as int) =~= text@);
    read_digits(text, 0, len, high)
}

/// The place of the first `.` at or after `from`.
fn find_dot(text: &Vec<char>, from: usize) -> (dot: usize)
    requires
        from <= text@.len(),
    ensures
        dot as int == dot_at(text@, from as int),
        from <= dot <= text@.len(),
{
    let mut i: usize = from;
    while i < text.len() && text[i] != '.'
        invariant
            from <= i <= text@.len(),
            dot_at(text@, from as int) == dot_at(text@, i as int),
        decreases text@.len() - i,
    {
        i += 1;
    }
    i
}

/// [`place_weight`].
fn weight_of_place(k: usize) -> (weight: u64)
    requires
        k <= 6,
    ensures
        weight as int == place_weight(k as int),
{
    if k == 0 {
        1_000_000
    } else if k == 1 {
        100_000
    } else if k == 2 {
        10_000
    } else if k == 3 {
        1_000
    } else if k == 4 {
        100
    } else if k == 5 {
        10
    } else {
        1
    }
}

/// A run of at most six digits spells less than a million.
proof fn lemma_six_digits(text: Seq<char>)
    requires
        all_digits(text),
        text.len() <= 6,
    ensures
        digits_value(text) * place_weight(text.len() as int) <= 999_999,
    decreases text.len(),
{
    if text.len() > 0 {
        let front = text.drop_last();
        assert(all_digits(front)) by {
            assert forall|j: int| 0 <= j < front.len() implies is_digit(#[trigger] front[j]) by {
                assert(front[j] == text[j]);
            }
        }
        lemma_six_digits(front);
        assert(is_digit(text[text.len() - 1]));
        assert(digit_of(text.last()) <= 9);
        assert(place_weight(front.len() as int) == 10 * place_weight(text.len() as int));
        assert(digits_value(text) * place_weight(text.len() as int) == digits_value(front) * (10
            * place_weight(text.len() as int)) + digit_of(text.last()) * place_weight(
            text.len() as int,
        )) by (nonlinear_arith)
            requires
                digits_value(text) == digits_value(front) * 10 + digit_of(text.last()),
        ;
        assert(digit_of(text.last()) * place_weight(text.len() as int) <= 9 * place_weight(
            text.len() as int,
        )) by (nonlinear_arith)
            requires
                digit_of(text.last()) <= 9,
                place_weight(text.len() as int) >= 1,
        ;
        // the digits before fill the places above, in steps of ten weights
        lemma_places_step(digits_value(front) as int, place_weight(front.len() as int), place_weight(text.len() as int));
    }
}

/// A multiple of ten weights that is under a million is under a million by
/// ten weights at least.
proof fn lemma_places_step(value: int, above: int, weight: int)
    requires
        0 <= value,
        above == 10 * weight,
        value * above <= 999_999,
        weight == 1 || weight == 10 || weight == 100 || weight == 1_000 || weight == 10_000
            || weight == 100_000,
    ensures
        value * above + 9 * weight <= 999_999,
{
    assert(value * above == (value * 10) * weight) by (nonlinear_arith)
        requires
            above == 10 * weight,
    ;
    let steps: int = 1_000_000int / weight;
    assert(steps * weight == 1_000_000);
    assert(value * 10 < steps) by (nonlinear_arith)
        requires
            (value * 10) * weight <= 999_999,
            steps * weight == 1_000_000,
            weight >= 1,
    ;
    assert(steps % 10 == 0);
    assert(value * 10 + 10 <= steps);
    assert((value * 10 + 10) * weight <= steps * weight) by (nonlinear_arith)
        requires
            value * 10 + 10 <= steps,
            weight >= 1,
    ;
    assert((value * 10 + 10) * weight == (value * 10) * weight + 10 * weight) by (nonlinear_arith);
}

/// The number, in millionths and between `low` and `high`, that the text
/// spells.
pub fn read_decimal(text: &Vec<char>, low: i64, high: i64) -> (value: Option<i64>)
    requires
        low <= 0 <= high,
    ensures
        value.is_some() <==> (spelled_decimal(text@).is_some() && low <= spelled_decimal(
            text@,
        ).unwrap() <= high),
        value.is_some() ==> value.unwrap() == spelled_decimal(text@).unwrap(),
{
    let len: usize = text.len();
    let negative: bool = len > 0 && text[0] == '-';
    let start: usize = if negative {
        1
    } else {
        0
    };
    let dot: usize = find_dot(text, start);
    let after: usize = if dot < len {
        dot + 1
    } else {
        len
    };
    let ghost whole = text@.subrange(start as int, dot as int);
    let ghost fraction = if dot < len {
        text@.subrange(dot + 1, len as int)
    } else {
        Seq::<char>::empty()
    };
    assert(fraction =~= text@.subrange(after as int, len as int));
    if (dot - start) + (len - after) == 0 {
        return None;
    }
    let limit: u64 = if negative {
        crate::units::magnitude_of(low)
    } else {
        high as u64
    };
    // the digits before the point
    let units: u64 = match read_digits(text, start, dot, 9_223_372_036_854) {
        Some(units) => units,
        None => {
            proof {
                if all_digits(whole) && all_digits(fraction) {
                    assert(digits_value(whole) * SCALE >= 9_223_372_036_855 * SCALE)
                        by (nonlinear_arith)
                        requires
                            digits_value(whole) >= 9_223_372_036_855,
                            SCALE == 1_000_000,
                    ;
                    assert(fraction_micros(fraction) >= 0) by {
                        lemma_fraction_bounded(fraction);
                    }
                }
            }
            return None;
        },
    };
    // the first six digits after the point, then the ones that are dropped
    let places: usize = if len - after <= 6 {
        len - after
    } else {
        6
    };
    let ghost counted = text@.subrange(after as int, after + places);
    let ghost dropped = text@.subrange(after + places, len as int);
    proof {
        assert(counted =~= fraction.take(places as int));
        assert forall|j: int| 0 <= j < counted.len() implies counted[j] == fraction[j] by {}
        assert forall|j: int| 0 <= j < dropped.len() implies dropped[j] == fraction[places + j] by {}
        if all_digits(fraction) {
            assert(all_digits(counted));
            assert(all_digits(dropped));
            lemma_six_digits(counted);
            assert(place_weight(places as int) >= 1);
            assert(digits_value(counted) <= 999_999) by (nonlinear_arith)
                requires
                    digits_value(counted) * place_weight(places as int) <= 999_999,
                    place_weight(places as int) >= 1,
            ;
        }
    }
    let counted_value: u64 = match read_digits(text, after, after + places, 999_999) {
        Some(v) => v,
        None => {
            return None;
        },
    };
    if !rest_are_digits(text, after + places) {
        proof {
            if all_digits(fraction) {
                assert(all_digits(dropped));
            }
        }
        return None;
    }
    proof {
        assert(all_digits(counted) && all_digits(dropped));
        assert(all_digits(fraction)) by {
            assert forall|j: int| 0 <= j < fraction.len() implies is_digit(
                #[trigger] fraction[j],
            ) by {
                if j < places {
                    assert(counted[j] == fraction[j]);
                } else {
                    assert(dropped[j - places] == fraction[j]);
                }
            }
        }
        lemma_six_digits(counted);
    }
    let weight: u64 = weight_of_place(places);
    assert(counted_value * weight <= 999_999);
    let micros: u64 = counted_value * weight;
    assert(units * 1_000_000 <= 9_223_372_036_854 * 1_000_000) by (nonlinear_arith)
        requires
            units <= 9_223_372_036_854,
    ;
    let size: u64 = units * 1_000_000 + micros;
    assert(size as int == digits_value(whole) * SCALE + fraction_micros(fraction));
    if size > limit {
        return None;
    }
    if negative {
        if size == 0x8000_0000_0000_0000 {
            Some(i64::MIN)
        } else {
            Some(-(size as i64))
        }
    } else {
        Some(size as i64)
    }
}

/// Whether the characters from `from` on are all digits.
fn rest_are_digits(text: &Vec<char>, from: usize) -> (yes: bool)
    requires
        from <= text@.len(),
    ensures
        yes == all_digits(text@.subrange(from as int, text@.len() as int)),
{
    let ghost run = text@.subrange(from as int, text@.len() as int);
    let mut i: usize = from;
    while i < text.len()
        invariant
            from <= i <= text@.len(),
            run == text@.subrange(from as int, text@.len() as int),
            forall|j: int| 0 <= j < i - from ==> is_digit(#[trigger] run[j]),
        decreases text@.len() - i,
    {
        if !is_digit_char(text[i]) {
            assert(!is_digit(run[i - from]));
            return false;
        }
        i += 1;
    }
    true
}

/// The millionths after the point are at least none and less than a whole.
pub proof fn lemma_fraction_bounded(digits: Seq<char>)
    requires
        all_digits(digits),
    ensures
        0 <= fraction_micros(digits) <= 999_999,
{
    let places = if digits.len() <= 6 {
        digits.len() as int
    } else {
        6
    };
    let counted = digits.take(places);
    assert(all_digits(counted)) by {
        assert forall|j: int| 0 <= j < counted.len() implies is_digit(#[trigger] counted[j]) by {
            assert(counted[j] == digits[j]);
        }
    }
    lemma_six_digits(counted);
    assert(0 <= digits_value(counted) * place_weight(places)) by (nonlinear_arith)
        requires
            0 <= digits_value(counted),
            1 <= place_weight(places),
    ;
}

} // verus!
