//! What a duration is written as reads back as that duration.

use crate::meta::decimal::{
    decimal, digit_byte, digits, fraction, lemma_pow10_positive, padded, pow10, trimmed,
    DIGIT_ZERO, POINT,
};
use crate::meta::duration::{
    duration_text, hours_text, lemma_duration_text_is_utf8, magnitude_text, minutes_text,
    LETTER_H, LETTER_M, LETTER_N, LETTER_S, MICRO_SIGN_LEAD, MICRO_SIGN_TAIL, MINUS,
};
use crate::meta::grammar::{
    digit_value, digits_end, fitting, is_digit, lemma_digits_end_step, lemma_unit_end_step, number,
    piece_at, pieces_from, starts_number, sum_nanos, term_nanos, unit_end, unit_nanos, Flaw,
    Piece, Term, GREEK_MU_LEAD, GREEK_MU_TAIL, LETTER_U,
};
use crate::meta::parse_error::ParseErrorView;
use crate::meta::scan::{resolved, scan_of};
use vstd::arithmetic::div_mod::lemma_breakdown;
use vstd::prelude::*;
use vstd::utf8::{decode_utf8, decode_utf8_encode_utf8};

verus! {

/// Whether all of `d` are decimal digits.
pub open spec fn all_digits(d: Seq<u8>) -> bool {
    forall|i: int| 0 <= i < d.len() ==> is_digit(#[trigger] d[i])
}

/// Whether none of `symbol` is a decimal digit or a point.
pub open spec fn no_number(symbol: Seq<u8>) -> bool {
    forall|i: int| 0 <= i < symbol.len() ==> !starts_number(#[trigger] symbol[i])
}

/// Where digits end depends only on what follows the place where they
/// start.
pub proof fn lemma_digits_end_of_rest(s: Seq<u8>, p: int)
    requires
        0 <= p <= s.len(),
    ensures
        digits_end(s, p) == p + digits_end(s.subrange(p, s.len() as int), 0),
    decreases s.len() - p,
{
    let rest = s.subrange(p, s.len() as int);
    if p < s.len() && is_digit(s[p]) {
        assert(rest[0] == s[p]);
        lemma_digits_end_of_rest(s, p + 1);
        lemma_digits_end_of_rest(rest, 1);
        assert(rest.subrange(1, rest.len() as int) =~= s.subrange(p + 1, s.len() as int));
    } else if p < s.len() {
        assert(rest[0] == s[p]);
    }
}

/// Where a unit ends depends only on what follows the place where it
/// starts.
pub proof fn lemma_unit_end_of_rest(s: Seq<u8>, p: int)
    requires
        0 <= p <= s.len(),
    ensures
        unit_end(s, p) == p + unit_end(s.subrange(p, s.len() as int), 0),
    decreases s.len() - p,
{
    let rest = s.subrange(p, s.len() as int);
    if p < s.len() && !starts_number(s[p]) {
        assert(rest[0] == s[p]);
        lemma_unit_end_of_rest(s, p + 1);
        lemma_unit_end_of_rest(rest, 1);
        assert(rest.subrange(1, rest.len() as int) =~= s.subrange(p + 1, s.len() as int));
    } else if p < s.len() {
        assert(rest[0] == s[p]);
    }
}

/// Digits that are followed by no digit end where they are followed.
pub proof fn lemma_digits_end_of_run(d: Seq<u8>, rest: Seq<u8>)
    requires
        all_digits(d),
        rest.len() > 0 ==> !is_digit(rest[0]),
    ensures
        digits_end(d + rest, 0) == d.len(),
{
    let s = d + rest;
    assert forall|j: int| 0 <= j < d.len() implies is_digit(#[trigger] s[j]) by {
        assert(s[j] == d[j]);
    }
    lemma_digits_end_step(s, 0, d.len() as int);
    if rest.len() > 0 {
        assert(s[d.len() as int] == rest[0]);
    }
}

/// A unit that is followed by a digit or a point, or by nothing, ends
/// where it is followed.
pub proof fn lemma_unit_end_of_run(symbol: Seq<u8>, rest: Seq<u8>)
    requires
        no_number(symbol),
        rest.len() > 0 ==> starts_number(rest[0]),
    ensures
        unit_end(symbol + rest, 0) == symbol.len(),
{
    let s = symbol + rest;
    assert forall|j: int| 0 <= j < symbol.len() implies !starts_number(#[trigger] s[j]) by {
        assert(s[j] == symbol[j]);
    }
    lemma_unit_end_step(s, 0, symbol.len() as int);
    if rest.len() > 0 {
        assert(s[symbol.len() as int] == rest[0]);
    }
}

/// The digits `d` that stand at `k`, followed by no digit, end after them.
proof fn lemma_digits_stand(s: Seq<u8>, k: int, d: Seq<u8>, rest: Seq<u8>)
    requires
        0 <= k <= s.len(),
        s.subrange(k, s.len() as int) == d + rest,
        all_digits(d),
        rest.len() > 0 ==> !is_digit(rest[0]),
    ensures
        digits_end(s, k) == k + d.len(),
        k + d.len() <= s.len(),
        s.subrange(k, k + d.len()) == d,
        rest.len() > 0 ==> s[k + d.len()] == rest[0],
        s.subrange(k + d.len(), s.len() as int) == rest,
{
    let n = s.len() as int;
    let tail = s.subrange(k, n);
    lemma_digits_end_of_rest(s, k);
    lemma_digits_end_of_run(d, rest);
    assert(tail.len() == d.len() + rest.len());
    assert(s.subrange(k, k + d.len()) =~= tail.subrange(0, d.len() as int));
    assert(tail.subrange(0, d.len() as int) =~= d);
    assert(s.subrange(k + d.len(), n) =~= tail.subrange(d.len() as int, tail.len() as int));
    assert(tail.subrange(d.len() as int, tail.len() as int) =~= rest);
    if rest.len() > 0 {
        assert(s[k + d.len()] == tail[d.len() as int]);
    }
}

/// The unit `symbol` that stands at `k`, followed by a number or by
/// nothing, ends after it.
proof fn lemma_unit_stands(s: Seq<u8>, k: int, symbol: Seq<u8>, rest: Seq<u8>)
    requires
        0 <= k <= s.len(),
        s.subrange(k, s.len() as int) == symbol + rest,
        no_number(symbol),
        rest.len() > 0 ==> starts_number(rest[0]),
    ensures
        unit_end(s, k) == k + symbol.len(),
        k + symbol.len() == s.len() - rest.len(),
        s.subrange(k, k + symbol.len()) == symbol,
{
    let n = s.len() as int;
    let tail = s.subrange(k, n);
    lemma_unit_end_of_rest(s, k);
    lemma_unit_end_of_run(symbol, rest);
    assert(tail.len() == symbol.len() + rest.len());
    assert(s.subrange(k, k + symbol.len()) =~= tail.subrange(0, symbol.len() as int));
    assert(tail.subrange(0, symbol.len() as int) =~= symbol);
}

/// A whole number followed by its unit, and then by another number or by
/// nothing, reads as the term that it writes.
pub proof fn lemma_whole_piece_reads(
    s: Seq<u8>,
    p: int,
    whole: Seq<u8>,
    symbol: Seq<u8>,
    rest: Seq<u8>,
)
    requires
        0 <= p <= s.len(),
        s.subrange(p, s.len() as int) == whole + (symbol + rest),
        whole.len() > 0,
        all_digits(whole),
        number(whole) <= u64::MAX,
        symbol.len() > 0,
        no_number(symbol),
        unit_nanos(symbol) is Some,
        rest.len() > 0 ==> starts_number(rest[0]),
    ensures
        piece_at(s, p) == (Piece::Term {
            term: Term {
                whole: number(whole) as u64,
                fraction: 0,
                fraction_digits: 0,
                unit: unit_nanos(symbol)->0,
            },
            next: s.len() - rest.len(),
        }),
        p < s.len() - rest.len() <= s.len(),
        s.subrange(s.len() - rest.len(), s.len() as int) == rest,
{
    let n = s.len() as int;
    let after_whole = symbol + rest;
    assert(after_whole[0] == symbol[0]);
    lemma_digits_stand(s, p, whole, after_whole);
    let whole_end = p + whole.len();
    assert(s[p] == s.subrange(p, whole_end)[0]);
    lemma_unit_stands(s, whole_end, symbol, rest);
    assert(s.subrange(n - rest.len(), n) =~= s.subrange(whole_end, n).subrange(
        symbol.len() as int,
        (symbol.len() + rest.len()) as int,
    ));
    assert(after_whole.subrange(symbol.len() as int, (symbol.len() + rest.len()) as int) =~= rest);
    assert(fitting(Seq::<u8>::empty()) == 0);
    assert(Seq::<u8>::empty().take(0) =~= Seq::<u8>::empty());
    assert(number(Seq::<u8>::empty()) == 0);
}

/// A number with digits after its point, followed by its unit, and then
/// by another number or by nothing, reads as the term that it writes.
pub proof fn lemma_pointed_piece_reads(
    s: Seq<u8>,
    p: int,
    whole: Seq<u8>,
    after_point: Seq<u8>,
    symbol: Seq<u8>,
    rest: Seq<u8>,
)
    requires
        0 <= p <= s.len(),
        s.subrange(p, s.len() as int) == whole + (seq![POINT] + (after_point + (symbol + rest))),
        whole.len() > 0,
        all_digits(whole),
        all_digits(after_point),
        number(whole) <= u64::MAX,
        number(after_point) <= u64::MAX,
        symbol.len() > 0,
        no_number(symbol),
        unit_nanos(symbol) is Some,
        rest.len() > 0 ==> starts_number(rest[0]),
    ensures
        piece_at(s, p) == (Piece::Term {
            term: Term {
                whole: number(whole) as u64,
                fraction: number(after_point) as u64,
                fraction_digits: after_point.len() as usize,
                unit: unit_nanos(symbol)->0,
            },
            next: s.len() - rest.len(),
        }),
        p < s.len() - rest.len() <= s.len(),
        s.subrange(s.len() - rest.len(), s.len() as int) == rest,
{
    let n = s.len() as int;
    let after_digits = symbol + rest;
    let after_mark = after_point + after_digits;
    let after_whole = seq![POINT] + after_mark;
    assert(after_whole[0] == POINT);
    assert(after_digits[0] == symbol[0]);
    lemma_digits_stand(s, p, whole, after_whole);
    let whole_end = p + whole.len();
    assert(s[p] == s.subrange(p, whole_end)[0]);
    assert(s[whole_end] == POINT);
    let fraction_start = whole_end + 1;
    assert(s.subrange(fraction_start, n) =~= s.subrange(whole_end, n).subrange(
        1,
        n - whole_end,
    ));
    assert(after_whole.subrange(1, after_whole.len() as int) =~= after_mark);
    lemma_digits_stand(s, fraction_start, after_point, after_digits);
    let number_end = fraction_start + after_point.len();
    lemma_unit_stands(s, number_end, symbol, rest);
    assert(s.subrange(n - rest.len(), n) =~= s.subrange(number_end, n).subrange(
        symbol.len() as int,
        (symbol.len() + rest.len()) as int,
    ));
    assert(after_digits.subrange(symbol.len() as int, (symbol.len() + rest.len()) as int) =~= rest);
    assert(after_point.take(after_point.len() as int) =~= after_point);
    assert(fitting(after_point) == after_point.len());
}

/// A digit more makes ten times the number, and the digit.
pub proof fn lemma_number_push(d: Seq<u8>, c: u8)
    ensures
        number(d.push(c)) == number(d) * 10 + digit_value(c),
{
    assert(d.push(c).drop_last() =~= d);
}

/// The digits of a number write that number.
pub proof fn lemma_digits_write(v: nat)
    ensures
        number(digits(v)) == v,
        all_digits(digits(v)),
        v > 0 ==> digits(v).len() > 0,
    decreases v,
{
    if v > 0 {
        lemma_digits_write(v / 10);
        let c = digit_byte((v % 10) as int);
        lemma_number_push(digits(v / 10), c);
        assert(is_digit(c));
        assert(digit_value(c) == v % 10);
        assert forall|i: int| 0 <= i < digits(v).len() implies is_digit(#[trigger] digits(v)[i]) by {
            if i < digits(v / 10).len() {
                assert(digits(v)[i] == digits(v / 10)[i]);
            }
        }
    }
}

/// A number as it is written reads as that number.
pub proof fn lemma_decimal_writes(v: nat)
    ensures
        number(decimal(v)) == v,
        all_digits(decimal(v)),
        decimal(v).len() > 0,
{
    if v == 0 {
        let zero = seq![DIGIT_ZERO];
        assert(zero.drop_last() =~= Seq::<u8>::empty());
        assert(number(zero) == number(zero.drop_last()) * 10 + digit_value(zero.last()));
    } else {
        lemma_digits_write(v);
    }
}

/// The lowest digits of a number write what it is beyond the power of ten
/// of their count.
pub proof fn lemma_padded_writes(v: nat, width: nat)
    ensures
        number(padded(v, width)) == v % pow10(width),
        all_digits(padded(v, width)),
        padded(v, width).len() == width,
    decreases width,
{
    lemma_pow10_positive(width);
    if width == 0 {
        assert(v % 1 == 0);
    } else {
        let lower = (width - 1) as nat;
        lemma_padded_writes(v / 10, lower);
        lemma_pow10_positive(lower);
        let c = digit_byte((v % 10) as int);
        lemma_number_push(padded(v / 10, lower), c);
        assert(is_digit(c));
        assert(digit_value(c) == v % 10);
        let q = pow10(lower);
        assert(pow10(width) == 10 * q);
        lemma_breakdown(v as int, 10, q as int);
        assert forall|i: int| 0 <= i < padded(v, width).len() implies is_digit(
            #[trigger] padded(v, width)[i],
        ) by {
            if i < padded(v / 10, lower).len() {
                assert(padded(v, width)[i] == padded(v / 10, lower)[i]);
            }
        }
    }
}

/// Digits without the zeros at their end write the number that, with a
/// zero for each of those, the digits write.
pub proof fn lemma_trimmed_writes(d: Seq<u8>)
    requires
        all_digits(d),
    ensures
        all_digits(trimmed(d)),
        trimmed(d).len() <= d.len(),
        number(d) == number(trimmed(d)) * pow10((d.len() - trimmed(d).len()) as nat),
        trimmed(d).len() > 0 ==> number(trimmed(d)) > 0,
    decreases d.len(),
{
    if d.len() > 0 && d.last() == DIGIT_ZERO {
        let front = d.drop_last();
        assert forall|i: int| 0 <= i < front.len() implies is_digit(#[trigger] front[i]) by {
            assert(front[i] == d[i]);
        }
        lemma_trimmed_writes(front);
        let t = trimmed(front);
        let z = (front.len() - t.len()) as nat;
        assert(trimmed(d) == t);
        assert((d.len() - t.len()) as nat == z + 1);
        assert(digit_value(d.last()) == 0);
        assert(number(d) == number(front) * 10);
        assert(pow10(z + 1) == 10 * pow10(z));
        let a = number(t);
        let b = pow10(z);
        assert((a * b) * 10 == a * (10 * b)) by (nonlinear_arith);
        assert(number(d) == number(t) * pow10(z + 1));
    } else {
        assert(trimmed(d) == d);
        assert(pow10(0) == 1);
        assert(number(d) * 1 == number(d));
        if d.len() > 0 {
            assert(is_digit(d.last()));
            assert(digit_value(d.last()) > 0);
        }
    }
}

/// What the digits after the point of a term come to in nanoseconds,
/// counted exactly.
pub open spec fn exact_part(term: Term) -> nat {
    (term.fraction as nat * term.unit as nat) / pow10(term.fraction_digits as nat)
}

/// The exact parts of terms, in their order.
pub open spec fn exact_parts(terms: Seq<Term>) -> Seq<u64> {
    Seq::new(terms.len(), |i: int| exact_part(terms[i]) as u64)
}

/// Powers of ten multiply as their exponents add.
pub proof fn lemma_pow10_adds(a: nat, b: nat)
    ensures
        pow10(a + b) == pow10(a) * pow10(b),
    decreases a,
{
    if a == 0 {
        assert(pow10(0) == 1);
        assert(1 * pow10(b) == pow10(b));
    } else {
        lemma_pow10_adds((a - 1) as nat, b);
        assert(pow10(a + b) == 10 * pow10((a - 1 + b) as nat));
        let x = pow10((a - 1) as nat);
        let y = pow10(b);
        assert(10 * (x * y) == (10 * x) * y) by (nonlinear_arith);
    }
}

/// A number with its fraction in the unit `symbol` of `10^width`
/// nanoseconds reads as a term that comes to what it writes: `quotient`
/// units and the nanoseconds of `u` below one unit.
pub proof fn lemma_scaled_piece_reads(
    s: Seq<u8>,
    p: int,
    quotient: nat,
    u: nat,
    width: nat,
    symbol: Seq<u8>,
    rest: Seq<u8>,
)
    requires
        0 <= p <= s.len(),
        s.subrange(p, s.len() as int) == decimal(quotient) + fraction(u, width) + symbol + rest,
        width <= 9,
        pow10(width) <= 1_000_000_000,
        quotient * pow10(width) + u % pow10(width) <= u64::MAX,
        symbol.len() > 0,
        no_number(symbol),
        unit_nanos(symbol) == Some(pow10(width) as u64),
        rest.len() > 0 ==> starts_number(rest[0]),
    ensures
        piece_at(s, p) is Term,
        piece_at(s, p)->next == s.len() - rest.len(),
        p < s.len() - rest.len() <= s.len(),
        s.subrange(s.len() - rest.len(), s.len() as int) == rest,
        exact_part(piece_at(s, p)->term) <= u64::MAX,
        term_nanos(
            piece_at(s, p)->term,
            exact_part(piece_at(s, p)->term) as u64,
        ) == Some(quotient * pow10(width) + u % pow10(width)),
{
    let unit = pow10(width);
    lemma_pow10_positive(width);
    let whole = decimal(quotient);
    lemma_decimal_writes(quotient);
    assert(quotient <= quotient * unit) by (nonlinear_arith)
        requires
            unit >= 1,
    ;
    let low = padded(u, width);
    lemma_padded_writes(u, width);
    lemma_trimmed_writes(low);
    let kept = trimmed(low);
    let dropped = (width - kept.len()) as nat;
    lemma_pow10_positive(dropped);
    lemma_pow10_positive(kept.len());
    assert(u % unit < unit) by (nonlinear_arith)
        requires
            unit > 0,
    ;
    assert(number(kept) <= number(kept) * pow10(dropped)) by (nonlinear_arith)
        requires
            pow10(dropped) >= 1,
    ;
    if kept.len() == 0 {
        assert(number(kept) == 0);
        assert(fraction(u, width) =~= Seq::<u8>::empty());
        assert(whole + fraction(u, width) + symbol + rest =~= whole + (symbol + rest));
        lemma_whole_piece_reads(s, p, whole, symbol, rest);
        let term = piece_at(s, p)->term;
        assert(term.whole == quotient && term.fraction == 0 && term.fraction_digits == 0
            && term.unit == unit);
        assert(0 * pow10(dropped) == 0);
        assert(u % unit == 0);
        assert(pow10(0) == 1);
        assert(0 * unit == 0) by (nonlinear_arith);
        assert(exact_part(term) == 0);
        assert(term.whole * term.unit == quotient * unit);
    } else {
        assert(fraction(u, width) == seq![POINT] + kept);
        assert(whole + fraction(u, width) + symbol + rest =~= whole + (seq![POINT] + (kept + (symbol
            + rest))));
        lemma_pointed_piece_reads(s, p, whole, kept, symbol, rest);
        let term = piece_at(s, p)->term;
        lemma_pow10_adds(kept.len(), dropped);
        let f = number(kept);
        let a = pow10(kept.len());
        let b = pow10(dropped);
        assert(unit == a * b);
        assert(f * b == u % unit);
        assert(term.whole == quotient && term.fraction == f && term.fraction_digits == kept.len()
            && term.unit == unit);
        assert((f * (a * b)) / a == f * b) by (nonlinear_arith)
            requires
                a > 0,
        ;
        assert(exact_part(term) == u % unit);
        assert(term.whole * term.unit == quotient * unit);
    }
}

/// The symbols that durations are written with name their units, and hold
/// neither digit nor point.
proof fn lemma_written_symbols()
    ensures
        no_number(seq![LETTER_N, LETTER_S]) && unit_nanos(seq![LETTER_N, LETTER_S]) == Some(1u64),
        no_number(seq![MICRO_SIGN_LEAD, MICRO_SIGN_TAIL, LETTER_S]) && unit_nanos(
            seq![MICRO_SIGN_LEAD, MICRO_SIGN_TAIL, LETTER_S],
        ) == Some(1_000u64),
        no_number(seq![LETTER_M, LETTER_S]) && unit_nanos(seq![LETTER_M, LETTER_S]) == Some(
            1_000_000u64,
        ),
        no_number(seq![LETTER_S]) && unit_nanos(seq![LETTER_S]) == Some(1_000_000_000u64),
        no_number(seq![LETTER_M]) && unit_nanos(seq![LETTER_M]) == Some(60_000_000_000u64),
        no_number(seq![LETTER_H]) && unit_nanos(seq![LETTER_H]) == Some(3_600_000_000_000u64),
{
    let ns = seq![LETTER_N, LETTER_S];
    let us = seq![LETTER_U, LETTER_S];
    let micro = seq![MICRO_SIGN_LEAD, MICRO_SIGN_TAIL, LETTER_S];
    let mu = seq![GREEK_MU_LEAD, GREEK_MU_TAIL, LETTER_S];
    let ms = seq![LETTER_M, LETTER_S];
    let sec = seq![LETTER_S];
    let min = seq![LETTER_M];
    let hour = seq![LETTER_H];
    assert(ns[0] == LETTER_N && us[0] == LETTER_U && ms[0] == LETTER_M);
    assert(micro[0] == MICRO_SIGN_LEAD && mu[0] == GREEK_MU_LEAD);
    assert(sec[0] == LETTER_S && min[0] == LETTER_M && hour[0] == LETTER_H);
    assert(ns.len() == 2 && us.len() == 2 && ms.len() == 2 && micro.len() == 3 && mu.len() == 3);
}

/// The powers of ten of the units.
proof fn lemma_unit_powers()
    ensures
        pow10(0) == 1,
        pow10(3) == 1_000,
        pow10(6) == 1_000_000,
        pow10(9) == 1_000_000_000,
{
    reveal_with_fuel(pow10, 10);
}

/// One term comes to its nanoseconds.
proof fn lemma_sum_of_one(term: Term, part: u64)
    ensures
        sum_nanos(seq![term], seq![part]) == match term_nanos(term, part) {
            Some(nanos) => if nanos > u64::MAX {
                None
            } else {
                Some(nanos)
            },
            None => None,
        },
{
    let terms = seq![term];
    let parts = seq![part];
    assert(terms.drop_last() =~= Seq::<Term>::empty());
    assert(parts.drop_last() =~= Seq::<u64>::empty());
    assert(terms.last() == term && parts.last() == part);
    assert(sum_nanos(Seq::<Term>::empty(), parts.drop_last()) == Some(0nat));
}

/// A term before others adds its nanoseconds to theirs, where a `u64`
/// holds all the sums on the way.
proof fn lemma_sum_with_first(term: Term, part: u64, terms: Seq<Term>, parts: Seq<u64>)
    requires
        terms.len() == parts.len(),
        term_nanos(term, part) is Some,
        sum_nanos(terms, parts) is Some,
        term_nanos(term, part)->0 + sum_nanos(terms, parts)->0 <= u64::MAX,
    ensures
        sum_nanos(seq![term] + terms, seq![part] + parts) == Some(
            term_nanos(term, part)->0 + sum_nanos(terms, parts)->0,
        ),
    decreases terms.len(),
{
    let all = seq![term] + terms;
    let all_parts = seq![part] + parts;
    if terms.len() == 0 {
        assert(all =~= seq![term]);
        assert(all_parts =~= seq![part]);
        lemma_sum_of_one(term, part);
    } else {
        assert(all.drop_last() =~= seq![term] + terms.drop_last());
        assert(all_parts.drop_last() =~= seq![part] + parts.drop_last());
        assert(all.last() == terms.last());
        assert(all_parts.last() == parts.last());
        lemma_sum_with_first(term, part, terms.drop_last(), parts.drop_last());
    }
}

/// The exact parts of a term before others are its exact part before
/// theirs.
proof fn lemma_exact_parts_with_first(term: Term, terms: Seq<Term>)
    ensures
        exact_parts(seq![term] + terms) == seq![exact_part(term) as u64] + exact_parts(terms),
{
    let all = seq![term] + terms;
    assert forall|i: int| 0 <= i < all.len() implies exact_parts(all)[i] == (seq![
        exact_part(term) as u64,
    ] + exact_parts(terms))[i] by {
        if i > 0 {
            assert(all[i] == terms[i - 1]);
        }
    }
    assert(exact_parts(all) =~= seq![exact_part(term) as u64] + exact_parts(terms));
}

/// What is left after the last piece of a text has no term and no flaw.
proof fn lemma_nothing_left(s: Seq<u8>)
    ensures
        pieces_from(s, s.len() as int) == (Seq::<Term>::empty(), None::<Flaw>),
        exact_parts(Seq::<Term>::empty()) == Seq::<u64>::empty(),
        sum_nanos(Seq::<Term>::empty(), Seq::<u64>::empty()) == Some(0nat),
{
    assert(exact_parts(Seq::<Term>::empty()) =~= Seq::<u64>::empty());
}

/// A term that reads at `p`, before the terms that read from the place
/// after it, adds its nanoseconds to theirs.
proof fn lemma_piece_then_rest(s: Seq<u8>, p: int, nanos: nat, after: nat)
    requires
        0 <= p < s.len(),
        piece_at(s, p) is Term,
        p < piece_at(s, p)->next <= s.len(),
        exact_part(piece_at(s, p)->term) <= u64::MAX,
        term_nanos(piece_at(s, p)->term, exact_part(piece_at(s, p)->term) as u64) == Some(nanos),
        pieces_from(s, piece_at(s, p)->next).1 is None,
        sum_nanos(
            pieces_from(s, piece_at(s, p)->next).0,
            exact_parts(pieces_from(s, piece_at(s, p)->next).0),
        ) == Some(after),
        nanos + after <= u64::MAX,
    ensures
        pieces_from(s, p).1 is None,
        sum_nanos(pieces_from(s, p).0, exact_parts(pieces_from(s, p).0)) == Some(nanos + after),
{
    let term = piece_at(s, p)->term;
    let next = piece_at(s, p)->next;
    let rest = pieces_from(s, next);
    assert(pieces_from(s, p) == (seq![term] + rest.0, rest.1));
    lemma_exact_parts_with_first(term, rest.0);
    lemma_sum_with_first(term, exact_part(term) as u64, rest.0, exact_parts(rest.0));
}

/// A piece without digits after its point comes to its number of units.
proof fn lemma_whole_piece_nanos(term: Term)
    requires
        term.fraction == 0,
        term.fraction_digits == 0,
        term.whole * term.unit <= u64::MAX,
    ensures
        exact_part(term) == 0,
        term_nanos(term, exact_part(term) as u64) == Some((term.whole * term.unit) as nat),
{
    assert(pow10(0) == 1);
    assert(0 * (term.unit as nat) == 0) by (nonlinear_arith);
}

/// What a span below one second is written as reads as one term that
/// comes to the span.
proof fn lemma_subsecond_reads(s: Seq<u8>, p: int, u: nat)
    requires
        0 <= p <= s.len(),
        s.subrange(p, s.len() as int) == magnitude_text(u),
        0 < u < 1_000_000_000,
    ensures
        pieces_from(s, p).1 is None,
        sum_nanos(pieces_from(s, p).0, exact_parts(pieces_from(s, p).0)) == Some(u),
{
    lemma_written_symbols();
    lemma_unit_powers();
    lemma_nothing_left(s);
    let nothing = Seq::<u8>::empty();
    if u < 1_000 {
        let symbol = seq![LETTER_N, LETTER_S];
        assert(padded(u, 0) =~= nothing);
        assert(fraction(u, 0) =~= nothing);
        assert(magnitude_text(u) =~= decimal(u) + fraction(u, 0) + symbol + nothing);
        lemma_scaled_piece_reads(s, p, u, u, 0, symbol, nothing);
        lemma_piece_then_rest(s, p, u, 0);
    } else if u < 1_000_000 {
        let symbol = seq![MICRO_SIGN_LEAD, MICRO_SIGN_TAIL, LETTER_S];
        assert(magnitude_text(u) =~= decimal(u / 1_000) + fraction(u, 3) + symbol + nothing);
        lemma_scaled_piece_reads(s, p, u / 1_000, u, 3, symbol, nothing);
        lemma_piece_then_rest(s, p, u, 0);
    } else {
        let symbol = seq![LETTER_M, LETTER_S];
        assert(magnitude_text(u) =~= decimal(u / 1_000_000) + fraction(u, 6) + symbol + nothing);
        lemma_scaled_piece_reads(s, p, u / 1_000_000, u, 6, symbol, nothing);
        lemma_piece_then_rest(s, p, u, 0);
    }
}

/// What a span of one second or more is written as reads as terms that
/// come to the span.
proof fn lemma_clock_reads(s: Seq<u8>, p: int, u: nat)
    requires
        0 <= p <= s.len(),
        s.subrange(p, s.len() as int) == magnitude_text(u),
        1_000_000_000 <= u <= 9_223_372_036_854_775_808,
    ensures
        pieces_from(s, p).1 is None,
        sum_nanos(pieces_from(s, p).0, exact_parts(pieces_from(s, p).0)) == Some(u),
{
    lemma_written_symbols();
    lemma_unit_powers();
    lemma_nothing_left(s);
    let n = s.len() as int;
    let nothing = Seq::<u8>::empty();
    let seconds = u / 1_000_000_000;
    let minutes = seconds / 60;
    let hours = minutes / 60;
    let second_text = decimal(seconds % 60) + fraction(u, 9) + seq![LETTER_S];
    let minute_text = minutes_text(minutes);
    let hour_text = hours_text(hours);
    assert(magnitude_text(u) =~= hour_text + (minute_text + second_text));
    lemma_decimal_writes(hours);
    lemma_decimal_writes(minutes % 60);
    lemma_decimal_writes(seconds % 60);
    assert(second_text[0] == decimal(seconds % 60)[0]);
    let second_nanos = (seconds % 60) * 1_000_000_000 + u % 1_000_000_000;
    let minute_nanos = (minutes % 60) * 60_000_000_000;
    let hour_nanos = hours * 3_600_000_000_000;
    assert(hour_nanos + minute_nanos + second_nanos == u);

    // Where the pieces stand.
    let minute_start = p + hour_text.len();
    let second_start = minute_start + minute_text.len();
    if hours > 0 {
        let after = minute_text + second_text;
        assert(minute_text[0] == decimal(minutes % 60)[0]);
        assert(after[0] == minute_text[0]);
        assert(hour_text + after =~= decimal(hours) + (seq![LETTER_H] + after));
        lemma_whole_piece_reads(s, p, decimal(hours), seq![LETTER_H], after);
        assert(n - after.len() == minute_start);
    }
    assert(s.subrange(minute_start, n) == minute_text + second_text) by {
        if hours == 0 {
            assert(hour_text + (minute_text + second_text) =~= minute_text + second_text);
        }
    }
    if minutes > 0 {
        assert(minute_text + second_text =~= decimal(minutes % 60) + (seq![LETTER_M]
            + second_text));
        lemma_whole_piece_reads(s, minute_start, decimal(minutes % 60), seq![LETTER_M], second_text);
        assert(n - second_text.len() == second_start);
    }
    assert(s.subrange(second_start, n) == second_text) by {
        if minutes == 0 {
            assert(minute_text + second_text =~= second_text);
        }
    }
    assert(second_text =~= decimal(seconds % 60) + fraction(u, 9) + seq![LETTER_S] + nothing);
    lemma_scaled_piece_reads(s, second_start, seconds % 60, u, 9, seq![LETTER_S], nothing);

    // What the pieces come to, from the last one on.
    lemma_piece_then_rest(s, second_start, second_nanos, 0);
    if minutes > 0 {
        let term = piece_at(s, minute_start)->term;
        assert(term.whole * term.unit == minute_nanos);
        lemma_whole_piece_nanos(term);
        lemma_piece_then_rest(s, minute_start, minute_nanos, second_nanos);
    }
    if hours > 0 {
        let term = piece_at(s, p)->term;
        assert(term.whole * term.unit == hour_nanos);
        lemma_whole_piece_nanos(term);
        lemma_piece_then_rest(s, p, hour_nanos, minute_nanos + second_nanos);
    }
}

/// What a duration is written as reads back as the duration, where the
/// digits after each point are scaled exactly.
pub proof fn lemma_written_duration_reads_back(n: int)
    requires
        i64::MIN <= n <= i64::MAX,
    ensures
        ({
            let scan = scan_of(decode_utf8(duration_text(n)));
            resolved(scan, exact_parts(scan.terms)) == Ok::<int, ParseErrorView>(n)
        }),
{
    let s = duration_text(n);
    lemma_duration_text_is_utf8(n);
    decode_utf8_encode_utf8(s);
    lemma_written_symbols();
    lemma_unit_powers();
    if n == 0 {
        let nothing = Seq::<u8>::empty();
        let symbol = seq![LETTER_S];
        lemma_padded_writes(0, 9);
        lemma_trimmed_writes(padded(0, 9));
        assert(fraction(0, 9) =~= nothing) by {
            if trimmed(padded(0, 9)).len() > 0 {
                assert(number(trimmed(padded(0, 9))) > 0);
                lemma_pow10_positive((9 - trimmed(padded(0, 9)).len()) as nat);
                assert(number(trimmed(padded(0, 9))) * pow10(
                    (9 - trimmed(padded(0, 9)).len()) as nat,
                ) > 0) by (nonlinear_arith)
                    requires
                        number(trimmed(padded(0, 9))) > 0,
                        pow10((9 - trimmed(padded(0, 9)).len()) as nat) > 0,
                ;
            }
        }
        assert(s.subrange(0, s.len() as int) =~= decimal(0) + fraction(0, 9) + symbol + nothing);
        lemma_scaled_piece_reads(s, 0, 0, 0, 9, symbol, nothing);
        lemma_nothing_left(s);
        lemma_piece_then_rest(s, 0, 0, 0);
        assert(s[0] == DIGIT_ZERO);
    } else {
        let u = (if n < 0 {
            -n
        } else {
            n
        }) as nat;
        let start = if n < 0 {
            1int
        } else {
            0int
        };
        let text = magnitude_text(u);
        assert(s.subrange(start, s.len() as int) =~= text);
        if u < 1_000_000_000 {
            lemma_subsecond_reads(s, start, u);
        } else {
            lemma_clock_reads(s, start, u);
        }
        lemma_magnitude_starts(u);
        assert(s[start] == text[0]);
        if n < 0 {
            assert(s[0] == MINUS);
        }
    }
}

/// What a positive span is written as starts with a digit and has at
/// least a digit and a unit.
proof fn lemma_magnitude_starts(u: nat)
    ensures
        magnitude_text(u).len() >= 2,
        is_digit(magnitude_text(u)[0]),
{
    let seconds = u / 1_000_000_000;
    let minutes = seconds / 60;
    let hours = minutes / 60;
    lemma_decimal_writes(u);
    lemma_decimal_writes(u / 1_000);
    lemma_decimal_writes(u / 1_000_000);
    lemma_decimal_writes(hours);
    lemma_decimal_writes(minutes % 60);
    lemma_decimal_writes(seconds % 60);
    let text = magnitude_text(u);
    if u < 1_000 {
        assert(text[0] == decimal(u)[0]);
    } else if u < 1_000_000 {
        assert(text[0] == decimal(u / 1_000)[0]);
    } else if u < 1_000_000_000 {
        assert(text[0] == decimal(u / 1_000_000)[0]);
    } else if hours > 0 {
        assert(text[0] == decimal(hours)[0]);
    } else if minutes > 0 {
        assert(hours_text(hours) =~= Seq::<u8>::empty());
        assert(text[0] == decimal(minutes % 60)[0]);
    } else {
        assert(hours_text(hours) =~= Seq::<u8>::empty());
        assert(minutes_text(minutes) =~= Seq::<u8>::empty());
        assert(text[0] == decimal(seconds % 60)[0]);
    }
}

} // verus!
