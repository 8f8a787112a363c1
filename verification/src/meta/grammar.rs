//! What a written duration says, as a grammar on bytes:
//! `[-+]?([0-9]*(\.[0-9]*)?[^0-9.]+)+`, each number followed by its unit.

use crate::meta::decimal::{DIGIT_NINE, DIGIT_ZERO, POINT};
use crate::meta::duration::{
    LETTER_H, LETTER_M, LETTER_N, LETTER_S, MICRO_SIGN_LEAD, MICRO_SIGN_TAIL, MINUS,
};
use vstd::prelude::*;

verus! {

/// The ASCII plus sign.
pub const PLUS: u8 = 0x2b;

/// The ASCII letter `u`.
pub const LETTER_U: u8 = 0x75;

/// The first byte of the Greek letter mu U+03BC in UTF-8.
pub const GREEK_MU_LEAD: u8 = 0xce;

/// The second byte of the Greek letter mu U+03BC in UTF-8.
pub const GREEK_MU_TAIL: u8 = 0xbc;

/// One number of a written duration with its unit.
#[derive(Clone, Copy, Debug, PartialEq, Eq, Structural)]
pub struct Term {
    /// The number before the point.
    pub whole: u64,
    /// The digits after the point, read as a number, as far as a `u64`
    /// holds them.
    pub fraction: u64,
    /// How many digits after the point `fraction` holds.
    pub fraction_digits: usize,
    /// The nanoseconds in one unit.
    pub unit: u64,
}

/// Why the text of a duration could not be read, with the bytes of the unit
/// where the unit is the reason.
pub enum Flaw {
    Invalid,
    MissingUnit,
    UnknownUnit(Seq<u8>),
}

/// What stands at one place of the text: a number with its unit, and the
/// place after it, or a flaw.
pub enum Piece {
    Term { term: Term, next: int },
    Flawed(Flaw),
}

/// Whether `c` is a decimal digit.
pub open spec fn is_digit(c: u8) -> bool {
    DIGIT_ZERO <= c <= DIGIT_NINE
}

/// Whether a number can start with `c`.
pub open spec fn starts_number(c: u8) -> bool {
    c == POINT || is_digit(c)
}

/// The value of the digit `c`.
pub open spec fn digit_value(c: u8) -> nat {
    if is_digit(c) {
        (c - DIGIT_ZERO) as nat
    } else {
        0
    }
}

/// Where the digits that start at `from` end.
pub open spec fn digits_end(s: Seq<u8>, from: int) -> int
    decreases s.len() - from,
{
    if 0 <= from < s.len() && is_digit(s[from]) {
        digits_end(s, from + 1)
    } else {
        from
    }
}

/// Where the unit that starts at `from` ends: before the next digit or
/// point.
pub open spec fn unit_end(s: Seq<u8>, from: int) -> int
    decreases s.len() - from,
{
    if 0 <= from < s.len() && !starts_number(s[from]) {
        unit_end(s, from + 1)
    } else {
        from
    }
}

/// The number that the digits `d` write.
pub open spec fn number(d: Seq<u8>) -> nat
    decreases d.len(),
{
    if d.len() == 0 {
        0
    } else {
        number(d.drop_last()) * 10 + digit_value(d.last())
    }
}

/// How many of the digits `d`, from the first on, write a number that a
/// `u64` holds.
pub open spec fn fitting(d: Seq<u8>) -> nat
    decreases d.len(),
{
    if d.len() == 0 || number(d) <= u64::MAX {
        d.len()
    } else {
        fitting(d.drop_last())
    }
}

/// The nanoseconds in the unit that `symbol` names, if it names one.
pub open spec fn unit_nanos(symbol: Seq<u8>) -> Option<u64> {
    if symbol == seq![LETTER_N, LETTER_S] {
        Some(1u64)
    } else if symbol == seq![LETTER_U, LETTER_S] {
        Some(1_000u64)
    } else if symbol == seq![MICRO_SIGN_LEAD, MICRO_SIGN_TAIL, LETTER_S] {
        Some(1_000u64)
    } else if symbol == seq![GREEK_MU_LEAD, GREEK_MU_TAIL, LETTER_S] {
        Some(1_000u64)
    } else if symbol == seq![LETTER_M, LETTER_S] {
        Some(1_000_000u64)
    } else if symbol == seq![LETTER_S] {
        Some(1_000_000_000u64)
    } else if symbol == seq![LETTER_M] {
        Some(60_000_000_000u64)
    } else if symbol == seq![LETTER_H] {
        Some(3_600_000_000_000u64)
    } else {
        None
    }
}

/// The piece of `s` that starts at `p`, a place inside `s`.
///
/// A piece is digits, then optionally a point and more digits, then a unit.
/// It is invalid where it starts with neither a digit nor a point, where a
/// `u64` does not hold the number before the point, and where it has no
/// digit at all. The digits after the point never make it invalid: the
/// term holds as many of them as a `u64` takes.
pub open spec fn piece_at(s: Seq<u8>, p: int) -> Piece {
    let whole_end = digits_end(s, p);
    let whole = number(s.subrange(p, whole_end));
    let pointed = whole_end < s.len() && s[whole_end] == POINT;
    let fraction_start = if pointed {
        whole_end + 1
    } else {
        whole_end
    };
    let fraction_end = digits_end(s, fraction_start);
    let after_point = if pointed {
        s.subrange(fraction_start, fraction_end)
    } else {
        Seq::empty()
    };
    let number_end = if pointed {
        fraction_end
    } else {
        whole_end
    };
    let symbol_end = unit_end(s, number_end);
    let symbol = s.subrange(number_end, symbol_end);
    if !starts_number(s[p]) {
        Piece::Flawed(Flaw::Invalid)
    } else if whole > u64::MAX {
        Piece::Flawed(Flaw::Invalid)
    } else if whole_end == p && after_point.len() == 0 {
        Piece::Flawed(Flaw::Invalid)
    } else if symbol_end == number_end {
        Piece::Flawed(Flaw::MissingUnit)
    } else {
        match unit_nanos(symbol) {
            None => Piece::Flawed(Flaw::UnknownUnit(symbol)),
            Some(unit) => Piece::Term {
                term: Term {
                    whole: whole as u64,
                    fraction: number(after_point.take(fitting(after_point) as int)) as u64,
                    fraction_digits: fitting(after_point) as usize,
                    unit,
                },
                next: symbol_end,
            },
        }
    }
}

/// The terms of `s` from `p` on, up to its end or to the first flaw, and
/// that flaw.
pub open spec fn pieces_from(s: Seq<u8>, p: int) -> (Seq<Term>, Option<Flaw>)
    decreases s.len() - p,
{
    if p < 0 || p >= s.len() {
        (Seq::empty(), None)
    } else {
        match piece_at(s, p) {
            Piece::Flawed(flaw) => (Seq::empty(), Some(flaw)),
            Piece::Term { term, next } => {
                if p < next <= s.len() {
                    let rest = pieces_from(s, next);
                    (seq![term] + rest.0, rest.1)
                } else {
                    (Seq::empty(), None)
                }
            },
        }
    }
}

/// Whether `s` starts with a sign.
pub open spec fn is_signed(s: Seq<u8>) -> bool {
    s.len() > 0 && (s[0] == MINUS || s[0] == PLUS)
}

/// Whether `s` starts with the sign of a negative duration.
pub open spec fn is_negative(s: Seq<u8>) -> bool {
    s.len() > 0 && s[0] == MINUS
}

/// Where the numbers of `s` start: after its sign.
pub open spec fn body_start(s: Seq<u8>) -> int {
    if is_signed(s) {
        1
    } else {
        0
    }
}

/// The terms of the text `s` up to the first flaw, and that flaw.
///
/// A lone `0` after the sign has no term and no flaw. A text with nothing
/// after the sign is invalid.
pub open spec fn read_terms(s: Seq<u8>) -> (Seq<Term>, Option<Flaw>) {
    let start = body_start(s);
    if s.len() == start + 1 && s[start] == DIGIT_ZERO {
        (Seq::empty(), None)
    } else if s.len() == start {
        (Seq::empty(), Some(Flaw::Invalid))
    } else {
        pieces_from(s, start)
    }
}

/// The nanoseconds of one term, given what its fraction comes to in
/// nanoseconds; `None` where a `u64` does not hold them. The fraction
/// counts only where its digits are not all zero.
pub open spec fn term_nanos(term: Term, fraction_part: u64) -> Option<nat> {
    let whole = term.whole * term.unit;
    if whole > u64::MAX {
        None
    } else if term.fraction > 0 {
        if whole + fraction_part > u64::MAX {
            None
        } else {
            Some((whole + fraction_part) as nat)
        }
    } else {
        Some(whole as nat)
    }
}

/// The nanoseconds of all terms together; `None` where a term or a sum of
/// them, taken in their order, goes beyond a `u64`.
pub open spec fn sum_nanos(terms: Seq<Term>, fraction_parts: Seq<u64>) -> Option<nat>
    decreases terms.len(),
{
    if terms.len() == 0 {
        Some(0)
    } else {
        match sum_nanos(terms.drop_last(), fraction_parts.drop_last()) {
            None => None,
            Some(before) => match term_nanos(terms.last(), fraction_parts.last()) {
                None => None,
                Some(nanos) => if before + nanos > u64::MAX {
                    None
                } else {
                    Some(before + nanos)
                },
            },
        }
    }
}

/// The count of a duration of `size` nanoseconds with its sign, where an
/// `i64` holds it.
pub open spec fn signed_nanos(negative: bool, size: nat) -> Option<int> {
    let n = if negative {
        -(size as int)
    } else {
        size as int
    };
    if i64::MIN <= n <= i64::MAX {
        Some(n)
    } else {
        None
    }
}

/// A prefix of digits writes no larger a number than all of them.
pub proof fn lemma_number_monotone(d: Seq<u8>, k: int)
    requires
        0 <= k <= d.len(),
    ensures
        number(d.take(k)) <= number(d),
    decreases d.len(),
{
    if k == d.len() {
        assert(d.take(k) =~= d);
    } else {
        lemma_number_monotone(d.drop_last(), k);
        assert(d.drop_last().take(k) =~= d.take(k));
    }
}

/// The prefix that a `u64` holds is the one that the next digit would
/// overflow.
pub proof fn lemma_fitting_is(d: Seq<u8>, k: int)
    requires
        0 <= k <= d.len(),
        number(d.take(k)) <= u64::MAX,
        k < d.len() ==> number(d.take(k + 1)) > u64::MAX,
    ensures
        fitting(d) == k,
    decreases d.len(),
{
    if d.len() == 0 {
    } else if number(d) <= u64::MAX {
        if k < d.len() {
            lemma_number_monotone(d, k + 1);
        }
    } else {
        if k == d.len() {
            assert(d.take(k) =~= d);
        }
        let e = d.drop_last();
        assert(e.take(k) =~= d.take(k));
        if k < e.len() {
            assert(e.take(k + 1) =~= d.take(k + 1));
        }
        lemma_fitting_is(e, k);
    }
}

/// The digits that start at `from` reach to their end and no further.
pub proof fn lemma_digits_end(s: Seq<u8>, from: int)
    requires
        0 <= from <= s.len(),
    ensures
        from <= digits_end(s, from) <= s.len(),
        forall|i: int| from <= i < digits_end(s, from) ==> is_digit(#[trigger] s[i]),
        digits_end(s, from) < s.len() ==> !is_digit(s[digits_end(s, from)]),
    decreases s.len() - from,
{
    if from < s.len() && is_digit(s[from]) {
        lemma_digits_end(s, from + 1);
    }
}

/// A run of digits from `from` to `i` ends where the digits from `i` end.
pub proof fn lemma_digits_end_step(s: Seq<u8>, from: int, i: int)
    requires
        0 <= from <= i <= s.len(),
        forall|j: int| from <= j < i ==> is_digit(#[trigger] s[j]),
    ensures
        digits_end(s, from) == digits_end(s, i),
    decreases i - from,
{
    if from < i {
        assert(is_digit(s[from]));
        lemma_digits_end_step(s, from + 1, i);
    }
}

/// The unit that starts at `from` reaches to its end and no further.
pub proof fn lemma_unit_end(s: Seq<u8>, from: int)
    requires
        0 <= from <= s.len(),
    ensures
        from <= unit_end(s, from) <= s.len(),
        forall|i: int| from <= i < unit_end(s, from) ==> !starts_number(#[trigger] s[i]),
        unit_end(s, from) < s.len() ==> starts_number(s[unit_end(s, from)]),
    decreases s.len() - from,
{
    if from < s.len() && !starts_number(s[from]) {
        lemma_unit_end(s, from + 1);
    }
}

/// A run without digit or point from `from` to `i` ends where the unit
/// from `i` ends.
pub proof fn lemma_unit_end_step(s: Seq<u8>, from: int, i: int)
    requires
        0 <= from <= i <= s.len(),
        forall|j: int| from <= j < i ==> !starts_number(#[trigger] s[j]),
    ensures
        unit_end(s, from) == unit_end(s, i),
    decreases i - from,
{
    if from < i {
        assert(!starts_number(s[from]));
        lemma_unit_end_step(s, from + 1, i);
    }
}

} // verus!
