//! Reading numbers from the words of a command line.
//!
//! A size is written in decimal digits, with an optional `+` in front.  A
//! fraction is written in decimal digits with at most one point among them
//! and an optional sign in front; it is read exactly, as the digits over a
//! power of ten.

use vstd::prelude::*;
use crate::ratio::{Frac, Ratio};

verus! {

/// Whether `c` is a decimal digit.
pub open spec fn is_digit(c: char) -> bool {
    48 <= c as int <= 57
}

/// The value of a decimal digit.
pub open spec fn digit_value(c: char) -> int {
    c as int - 48
}

/// Whether every character of `s` is a decimal digit.
pub open spec fn all_digits(s: Seq<char>) -> bool {
    forall|i: int| 0 <= i < s.len() ==> is_digit(#[trigger] s[i])
}

/// The number that a sequence of decimal digits writes; the empty sequence
/// writes zero.
pub open spec fn decimal_value(s: Seq<char>) -> int
    decreases s.len(),
{
    if s.len() == 0 {
        0
    } else {
        decimal_value(s.drop_last()) * 10 + digit_value(s.last())
    }
}

/// Ten to the power of `k`.
pub open spec fn pow10(k: nat) -> int
    decreases k,
{
    if k == 0 {
        1
    } else {
        10 * pow10((k - 1) as nat)
    }
}

/// The place of the first point in `s`, or the length of `s` where it holds
/// none.
pub open spec fn first_point(s: Seq<char>) -> int
    decreases s.len(),
{
    if s.len() == 0 || s[0] == '.' {
        0
    } else {
        1 + first_point(s.drop_first())
    }
}

/// The size that a word writes: decimal digits, at least one, after an
/// optional `+`, where the number fits in `usize`.
pub open spec fn size_of_word(word: Seq<char>) -> Option<int> {
    let start: int = if word.len() > 0 && word[0] == '+' {
        1
    } else {
        0
    };
    let body = word.skip(start);
    if body.len() > 0 && all_digits(body) && decimal_value(body) <= usize::MAX {
        Some(decimal_value(body))
    } else {
        None
    }
}

/// The digits before the first point of `body`.
pub open spec fn whole_part(body: Seq<char>) -> Seq<char> {
    body.take(first_point(body))
}

/// The characters after the first point of `body`; none where it holds no
/// point.
pub open spec fn fraction_part(body: Seq<char>) -> Seq<char> {
    if first_point(body) < body.len() {
        body.skip(first_point(body) + 1)
    } else {
        Seq::empty()
    }
}

/// The fraction that a word writes: after an optional sign, decimal digits
/// with at most one point among them, at least one digit in all and at most
/// nine after the point, where the digits without the point write a number
/// that fits in 31 bits.  The fraction is that number over the power of ten
/// of the count of digits after the point.
pub open spec fn fraction_of_word(word: Seq<char>) -> Option<Frac> {
    let signed = word.len() > 0 && (word[0] == '-' || word[0] == '+');
    let negative = word.len() > 0 && word[0] == '-';
    let start: int = if signed {
        1
    } else {
        0
    };
    let body = word.skip(start);
    let digits = whole_part(body) + fraction_part(body);
    let places = fraction_part(body).len();
    if digits.len() > 0 && all_digits(digits) && places <= 9 && decimal_value(digits)
        <= i32::MAX {
        Some(
            Frac::new(
                if negative {
                    -decimal_value(digits)
                } else {
                    decimal_value(digits)
                },
                pow10(places),
            ),
        )
    } else {
        None
    }
}

/// The number written by digits is not negative.
proof fn lemma_value_not_negative(s: Seq<char>)
    requires
        all_digits(s),
    ensures
        decimal_value(s) >= 0,
    decreases s.len(),
{
    if s.len() > 0 {
        assert(all_digits(s.drop_last())) by {
            assert forall|i: int| 0 <= i < s.drop_last().len() implies is_digit(
                #[trigger] s.drop_last()[i],
            ) by {
                assert(s.drop_last()[i] == s[i]);
            }
        }
        lemma_value_not_negative(s.drop_last());
        assert(is_digit(s[s.len() - 1]));
    }
}

/// The number written by the first digits of a sequence of digits is at most
/// the number written by all of them.
proof fn lemma_value_grows(s: Seq<char>, count: int)
    requires
        all_digits(s),
        0 <= count <= s.len(),
    ensures
        0 <= decimal_value(s.take(count)) <= decimal_value(s),
    decreases s.len(),
{
    lemma_value_not_negative(s);
    if count == s.len() {
        assert(s.take(count) =~= s);
    } else {
        let front = s.drop_last();
        assert(all_digits(front)) by {
            assert forall|i: int| 0 <= i < front.len() implies is_digit(#[trigger] front[i]) by {
                assert(front[i] == s[i]);
            }
        }
        lemma_value_grows(front, count);
        assert(front.take(count) =~= s.take(count));
        assert(is_digit(s[s.len() - 1]));
    }
}

/// Where no character before `place` is a point, and `place` is the end of
/// `s` or holds a point, `place` is the first point of `s`.
proof fn lemma_first_point(s: Seq<char>, place: int)
    requires
        0 <= place <= s.len(),
        forall|j: int| 0 <= j < place ==> s[j] != '.',
        place == s.len() || s[place] == '.',
    ensures
        first_point(s) == place,
    decreases s.len(),
{
    if place > 0 {
        let rest = s.drop_first();
        assert forall|j: int| 0 <= j < place - 1 implies rest[j] != '.' by {
            assert(rest[j] == s[j + 1]);
        }
        if place < s.len() {
            assert(rest[place - 1] == s[place]);
        }
        lemma_first_point(rest, place - 1);
    }
}

/// The value of a decimal digit, or `None` for another character.
pub fn digit_of(c: char) -> (d: Option<u8>)
    ensures
        d is Some <==> is_digit(c),
        d matches Some(v) ==> v == digit_value(c),
{
    let code: u32 = c as u32;
    if 48 <= code && code <= 57 {
        Some((code - 48) as u8)
    } else {
        None
    }
}

/// The number that the characters from `start` on write, where they are
/// digits, at least one, and the number is at most `limit`.
pub fn number_from(chars: &Vec<char>, start: usize, limit: u64) -> (number: Option<u64>)
    requires
        start <= chars@.len(),
    ensures
        number is Some <==> {
            &&& chars@.skip(start as int).len() > 0
            &&& all_digits(chars@.skip(start as int))
            &&& decimal_value(chars@.skip(start as int)) <= limit
        },
        number matches Some(n) ==> n == decimal_value(chars@.skip(start as int)),
{
    let ghost body = chars@.skip(start as int);
    if start == chars.len() {
        return None;
    }
    let mut value: u128 = 0;
    let mut i: usize = start;
    assert(body.take(0) =~= Seq::empty());
    while i < chars.len()
        invariant
            start <= i <= chars@.len(),
            body == chars@.skip(start as int),
            all_digits(body.take(i - start)),
            value == decimal_value(body.take(i - start)),
            value <= limit,
        decreases chars@.len() - i,
    {
        let ghost seen = body.take(i - start);
        let ghost next = body.take(i - start + 1);
        proof {
            assert(next.drop_last() =~= seen);
            assert(next.last() == chars@[i as int]);
        }
        match digit_of(chars[i]) {
            None => {
                assert(!all_digits(body)) by {
                    assert(body[i - start] == chars@[i as int]);
                }
                return None;
            },
            Some(d) => {
                assert(all_digits(next)) by {
                    assert forall|j: int| 0 <= j < next.len() implies is_digit(
                        #[trigger] next[j],
                    ) by {
                        if j < seen.len() {
                            assert(next[j] == seen[j]);
                        }
                    }
                }
                value = value * 10 + d as u128;
                if value > limit as u128 {
                    proof {
                        if all_digits(body) {
                            lemma_value_grows(body, i - start + 1);
                        }
                    }
                    return None;
                }
            },
        }
        i += 1;
    }
    assert(body.take(i - start) =~= body);
    Some(value as u64)
}

/// The size that a word writes.
pub fn parse_size(word: &Vec<char>) -> (size: Option<usize>)
    ensures
        size is Some <==> size_of_word(word@) is Some,
        size matches Some(n) ==> size_of_word(word@) == Some(n as int),
{
    let start: usize = if word.len() > 0 && word[0] == '+' {
        1
    } else {
        0
    };
    match number_from(word, start, usize::MAX as u64) {
        None => None,
        Some(n) => Some(n as usize),
    }
}

/// The fraction that a word writes.
pub fn parse_fraction(word: &Vec<char>) -> (fraction: Option<Ratio>)
    ensures
        fraction is Some <==> fraction_of_word(word@) is Some,
        fraction matches Some(r) ==> fraction_of_word(word@) == Some(r@),
{
    let len: usize = word.len();
    let signed: bool = len > 0 && (word[0] == '-' || word[0] == '+');
    let negative: bool = len > 0 && word[0] == '-';
    let start: usize = if signed {
        1
    } else {
        0
    };
    let ghost body = word@.skip(start as int);
    let mut point: usize = start;
    while point < len && word[point] != '.'
        invariant
            start <= point <= len,
            len == word@.len(),
            body == word@.skip(start as int),
            forall|j: int| 0 <= j < point - start ==> body[j] != '.',
        decreases len - point,
    {
        point += 1;
    }
    proof {
        lemma_first_point(body, point - start);
    }
    let mut digits: Vec<char> = Vec::new();
    let mut i: usize = start;
    assert(body.take(0) =~= Seq::empty());
    while i < point
        invariant
            start <= i <= point <= len,
            len == word@.len(),
            body == word@.skip(start as int),
            digits@ == body.take(i - start),
        decreases point - i,
    {
        digits.push(word[i]);
        assert(digits@ =~= body.take(i - start + 1));
        i += 1;
    }
    let places: usize = if point < len {
        len - point - 1
    } else {
        0
    };
    if point < len {
        i = point + 1;
        assert(digits@ =~= whole_part(body) + fraction_part(body).take(0));
        while i < len
            invariant
                start <= point < i <= len,
                len == word@.len(),
                body == word@.skip(start as int),
                first_point(body) == point - start,
                digits@ == whole_part(body) + fraction_part(body).take(i - point - 1),
            decreases len - i,
        {
            digits.push(word[i]);
            assert(digits@ =~= whole_part(body) + fraction_part(body).take(i - point));
            i += 1;
        }
        assert(fraction_part(body).take(i - point - 1) =~= fraction_part(body));
    } else {
        assert(digits@ =~= whole_part(body) + fraction_part(body));
    }
    assert(digits@.skip(0) =~= digits@);
    if places > 9 {
        return None;
    }
    let number: i32 = match number_from(&digits, 0, i32::MAX as u64) {
        None => {
            return None;
        },
        Some(n) => n as i32,
    };
    let mut den: u32 = 1;
    let mut k: usize = 0;
    while k < places
        invariant
            k <= places <= 9,
            den == pow10(k as nat),
            1 <= den <= 1_000_000_000,
            k < 9 ==> den <= 100_000_000,
        decreases places - k,
    {
        proof {
            lemma_pow10_bound(k as nat);
            lemma_pow10_bound((k + 1) as nat);
        }
        den = den * 10;
        k += 1;
    }
    Some(
        Ratio::of(
            if negative {
                -number
            } else {
                number
            },
            den,
        ),
    )
}

/// Up to the ninth, a power of ten is positive and at most a thousand
/// million, and below the ninth at most a hundred million.
proof fn lemma_pow10_bound(k: nat)
    requires
        k <= 9,
    ensures
        1 <= pow10(k) <= 1_000_000_000,
        k < 9 ==> pow10(k) <= 100_000_000,
    decreases k,
{
    reveal_with_fuel(pow10, 11);
}

} // verus!
