//! Reading the text of a duration.
//!
//! The text is read in two steps. `Duration::scan` finds the numbers and
//! their units. `Scan::resolve` adds them up, once the caller has worked
//! out what the digits after each point come to in nanoseconds: that
//! scaling is done in floating point, which this module does not hold.

use crate::meta::decimal::{DIGIT_NINE, DIGIT_ZERO, POINT};
use crate::meta::duration::{
    Duration, LETTER_H, LETTER_M, LETTER_N, LETTER_S, MICRO_SIGN_LEAD, MICRO_SIGN_TAIL, MINUS,
};
use crate::meta::grammar::{
    digit_value, digits_end, fitting, is_digit, is_negative, lemma_digits_end,
    lemma_digits_end_step, lemma_fitting_is, lemma_number_monotone, lemma_unit_end,
    lemma_unit_end_step, number, piece_at, pieces_from, read_terms, signed_nanos, starts_number,
    sum_nanos, unit_end, unit_nanos, Flaw, Piece, Term, GREEK_MU_LEAD, GREEK_MU_TAIL,
    LETTER_U, PLUS,
};
use crate::meta::parse_error::{DurationParseError, ParseErrorView};
use crate::text::lemma_between_ascii_is_utf8;
use vstd::prelude::*;
use vstd::slice::slice_subrange;
use vstd::utf8::{decode_utf8, encode_utf8, encode_utf8_valid_utf8, valid_utf8};

verus! {

/// Whether `c` is a decimal digit.
fn digit(c: u8) -> (r: bool)
    ensures
        r == is_digit(c),
{
    DIGIT_ZERO <= c && c <= DIGIT_NINE
}

/// leading_ints reads the leading [0-9]* of `s` from `from` on. It hands
/// back their number and the place where they end, or nothing where a
/// `u64` does not hold the number.
pub fn leading_ints(s: &[u8], from: usize) -> (r: Option<(u64, usize)>)
    requires
        from <= s.len(),
    ensures
        match r {
            Some((x, end)) => end == digits_end(s@, from as int) && x == number(
                s@.subrange(from as int, end as int),
            ),
            None => number(s@.subrange(from as int, digits_end(s@, from as int))) > u64::MAX,
        },
{
    let mut x: u64 = 0;
    let mut i: usize = from;
    proof {
        assert(s@.subrange(from as int, from as int) =~= Seq::<u8>::empty());
    }
    while i < s.len() && digit(s[i])
        invariant
            from <= i <= s.len(),
            forall|j: int| from <= j < i ==> is_digit(#[trigger] s@[j]),
            x == number(s@.subrange(from as int, i as int)),
        decreases s.len() - i,
    {
        let c = s[i];
        proof {
            let next = s@.subrange(from as int, i + 1);
            assert(next.drop_last() =~= s@.subrange(from as int, i as int));
            assert(next.last() == c);
            assert(number(next) == x * 10 + digit_value(c));
        }
        let grown = match x.checked_mul(10u64) {
            Some(y) => y.checked_add((c - DIGIT_ZERO) as u64),
            None => None,
        };
        match grown {
            Some(y) => {
                x = y;
            },
            None => {
                proof {
                    let end = digits_end(s@, from as int);
                    lemma_digits_end_step(s@, from as int, i + 1);
                    lemma_digits_end(s@, i + 1);
                    let all = s@.subrange(from as int, end);
                    lemma_number_monotone(all, i + 1 - from);
                    assert(all.take(i + 1 - from) =~= s@.subrange(from as int, i + 1));
                }
                return None;
            },
        }
        i = i + 1;
    }
    proof {
        lemma_digits_end_step(s@, from as int, i as int);
    }
    Some((x, i))
}

/// leading_fractions reads the leading [0-9]* of `s` from `from` on.
/// It is used only for fractions, so does not fail on overflow,
/// it just stops accumulating precision. It hands back the number of the
/// digits that it took, how many they are, and the place where all the
/// digits end.
pub fn leading_fractions(s: &[u8], from: usize) -> (r: (u64, usize, usize))
    requires
        from <= s.len(),
    ensures
        r.2 == digits_end(s@, from as int),
        r.1 == fitting(s@.subrange(from as int, r.2 as int)),
        r.0 == number(s@.subrange(from as int, r.2 as int).take(r.1 as int)),
{
    let mut x: u64 = 0;
    let mut taken: usize = 0;
    let mut overflow = false;
    let mut i: usize = from;
    proof {
        assert(s@.subrange(from as int, from as int) =~= Seq::<u8>::empty());
    }
    while i < s.len() && digit(s[i])
        invariant
            from <= i <= s.len(),
            forall|j: int| from <= j < i ==> is_digit(#[trigger] s@[j]),
            taken <= i - from,
            x == number(s@.subrange(from as int, from + taken)),
            !overflow ==> taken == i - from,
            overflow ==> taken < i - from && number(s@.subrange(from as int, from + taken + 1))
                > u64::MAX,
        decreases s.len() - i,
    {
        let c = s[i];
        if !overflow {
            proof {
                let next = s@.subrange(from as int, i + 1);
                assert(next.drop_last() =~= s@.subrange(from as int, i as int));
                assert(next.last() == c);
                assert(number(next) == x * 10 + digit_value(c));
            }
            let grown = match x.checked_mul(10u64) {
                Some(y) => y.checked_add((c - DIGIT_ZERO) as u64),
                None => None,
            };
            match grown {
                None => {
                    overflow = true;
                },
                Some(y) => {
                    x = y;
                    taken = taken + 1;
                },
            }
        }
        i = i + 1;
    }
    proof {
        lemma_digits_end_step(s@, from as int, i as int);
        let all = s@.subrange(from as int, i as int);
        assert(all.take(taken as int) =~= s@.subrange(from as int, from + taken));
        if overflow {
            assert(all.take(taken + 1) =~= s@.subrange(from as int, from + taken + 1));
        }
        lemma_fitting_is(all, taken as int);
    }
    (x, taken, i)
}

/// Where the unit of `s` that starts at `from` ends.
fn unit_run_end(s: &[u8], from: usize) -> (end: usize)
    requires
        from <= s.len(),
    ensures
        end == unit_end(s@, from as int),
{
    let mut i: usize = from;
    while i < s.len() && !(s[i] == POINT || digit(s[i]))
        invariant
            from <= i <= s.len(),
            forall|j: int| from <= j < i ==> !starts_number(#[trigger] s@[j]),
        decreases s.len() - i,
    {
        i = i + 1;
    }
    proof {
        lemma_unit_end_step(s@, from as int, i as int);
    }
    i
}

/// The nanoseconds in the unit that `symbol` names.
pub fn unit_base(symbol: &[u8]) -> (r: Option<i64>)
    ensures
        r matches Some(unit) ==> unit_nanos(symbol@) == Some(unit as u64),
        r is None ==> unit_nanos(symbol@) is None,
{
    let n = symbol.len();
    if n == 1 {
        let a = symbol[0];
        assert(symbol@ =~= seq![a]);
        if a == LETTER_S {
            Some(Duration::SECOND)
        } else if a == LETTER_M {
            Some(Duration::MINUTE)
        } else if a == LETTER_H {
            Some(Duration::HOUR)
        } else {
            assert(seq![LETTER_S][0] != a && seq![LETTER_M][0] != a && seq![LETTER_H][0] != a);
            None
        }
    } else if n == 2 {
        let a = symbol[0];
        let b = symbol[1];
        assert(symbol@ =~= seq![a, b]);
        if b != LETTER_S {
            assert(seq![LETTER_N, LETTER_S][1] != b);
            assert(seq![LETTER_U, LETTER_S][1] != b);
            assert(seq![LETTER_M, LETTER_S][1] != b);
            None
        } else if a == LETTER_N {
            Some(Duration::NANOSECOND)
        } else if a == LETTER_U {
            Some(Duration::MICROSECOND)
        } else if a == LETTER_M {
            Some(Duration::MILLISECOND)
        } else {
            assert(seq![LETTER_N, LETTER_S][0] != a);
            assert(seq![LETTER_U, LETTER_S][0] != a);
            assert(seq![LETTER_M, LETTER_S][0] != a);
            None
        }
    } else if n == 3 {
        let a = symbol[0];
        let b = symbol[1];
        let c = symbol[2];
        assert(symbol@ =~= seq![a, b, c]);
        if a == MICRO_SIGN_LEAD && b == MICRO_SIGN_TAIL && c == LETTER_S {
            // U+00B5 = micro symbol
            Some(Duration::MICROSECOND)
        } else if a == GREEK_MU_LEAD && b == GREEK_MU_TAIL && c == LETTER_S {
            // U+03BC = Greek letter mu
            Some(Duration::MICROSECOND)
        } else {
            proof {
                let micro = seq![MICRO_SIGN_LEAD, MICRO_SIGN_TAIL, LETTER_S];
                let mu = seq![GREEK_MU_LEAD, GREEK_MU_TAIL, LETTER_S];
                assert(micro[0] != a || micro[1] != b || micro[2] != c);
                assert(mu[0] != a || mu[1] != b || mu[2] != c);
            }
            None
        }
    } else {
        None
    }
}

/// The error that reports `flaw` in the text `input`. A unit that is not
/// known is reported as the text that its bytes encode.
pub open spec fn error_of(flaw: Flaw, input: Seq<char>) -> ParseErrorView {
    match flaw {
        Flaw::Invalid => ParseErrorView::Invalid { input },
        Flaw::MissingUnit => ParseErrorView::MissingUnit { input },
        Flaw::UnknownUnit(symbol) => ParseErrorView::UnknownUnit {
            input,
            unit: decode_utf8(symbol),
        },
    }
}

/// Reads the piece of `s` that starts at `p`: its term and the place after
/// it, or the error that reports its flaw in `value`.
fn scan_piece(s: &[u8], p: usize, value: &str) -> (r: Result<(Term, usize), DurationParseError>)
    requires
        p < s.len(),
        valid_utf8(s@),
    ensures
        match piece_at(s@, p as int) {
            Piece::Term { term, next } => r == Ok::<(Term, usize), DurationParseError>(
                (term, next as usize),
            ) && p < next <= s.len(),
            Piece::Flawed(flaw) => r matches Err(e) && e@ == error_of(flaw, value@),
        },
{
    // The next character must be [0-9.]
    let c = s[p];
    if !(c == POINT || digit(c)) {
        return Err(DurationParseError::invalid(value));
    }
    proof {
        lemma_digits_end(s@, p as int);
    }
    // Consume [0-9]*
    let (whole, whole_end) = match leading_ints(s, p) {
        Some(found) => found,
        None => {
            return Err(DurationParseError::invalid(value));
        },
    };
    let pre = whole_end != p;  // whether we consumed anything before a period

    // Consume (\.[0-9]*)?
    let pointed = whole_end < s.len() && s[whole_end] == POINT;
    let (fraction, fraction_digits, number_end, post) = if pointed {
        let (f, taken, end) = leading_fractions(s, whole_end + 1);
        proof {
            lemma_digits_end(s@, whole_end + 1);
        }
        (f, taken, end, end != whole_end + 1)
    } else {
        proof {
            assert(fitting(Seq::<u8>::empty()) == 0);
            assert(Seq::<u8>::empty().take(0) =~= Seq::<u8>::empty());
        }
        (0u64, 0usize, whole_end, false)
    };

    if !pre && !post {
        // no digits (e.g. ".s" or "-.s")
        return Err(DurationParseError::invalid(value));
    }
    // Consume unit.

    let symbol_end = unit_run_end(s, number_end);
    proof {
        lemma_unit_end(s@, number_end as int);
    }
    if symbol_end == number_end {
        return Err(DurationParseError::missing_unit(value));
    }
    let symbol = slice_subrange(s, number_end, symbol_end);
    proof {
        // The unit stands between the number and the next one, so it is text.
        lemma_between_ascii_is_utf8(s@, number_end as int, symbol_end as int);
    }
    match unit_base(symbol) {
        None => Err(DurationParseError::unknown_unit(symbol, value)),
        Some(unit) => Ok(
            (Term { whole, fraction, fraction_digits, unit: unit as u64 }, symbol_end),
        ),
    }
}

/// The numbers and units found in the text of a duration.
pub struct Scan {
    input: String,
    negative: bool,
    terms: Vec<Term>,
    failure: Option<DurationParseError>,
}

/// A `Scan` as plain values.
pub struct ScanView {
    /// The text that was scanned.
    pub input: Seq<char>,
    /// Whether the text starts with the sign of a negative duration.
    pub negative: bool,
    /// The terms of the text, as far as they are well formed.
    pub terms: Seq<Term>,
    /// The error of the first piece that is no term.
    pub failure: Option<ParseErrorView>,
}

impl View for Scan {
    type V = ScanView;

    closed spec fn view(&self) -> ScanView {
        ScanView {
            input: self.input@,
            negative: self.negative,
            terms: self.terms@,
            failure: match self.failure {
                Some(e) => Some(e@),
                None => None,
            },
        }
    }
}

/// What scanning the text `text` finds.
pub open spec fn scan_of(text: Seq<char>) -> ScanView {
    let s = encode_utf8(text);
    let found = read_terms(s);
    ScanView {
        input: text,
        negative: is_negative(s),
        terms: found.0,
        failure: match found.1 {
            Some(flaw) => Some(error_of(flaw, text)),
            None => None,
        },
    }
}

/// The duration that a scan comes to in nanoseconds, given for each term
/// what its fraction comes to, or the error that the text is refused
/// with.
///
/// The terms are added up in their order. A term or a sum beyond a `u64`
/// makes the text invalid, even where a later piece is flawed. Else the
/// flaw of the scan is the error. Else the text is invalid where an `i64`
/// does not hold the sum with its sign.
pub open spec fn resolved(scan: ScanView, fraction_parts: Seq<u64>) -> Result<int, ParseErrorView> {
    match sum_nanos(scan.terms, fraction_parts) {
        None => Err(ParseErrorView::Invalid { input: scan.input }),
        Some(size) => match scan.failure {
            Some(e) => Err(e),
            None => match signed_nanos(scan.negative, size) {
                Some(n) => Ok(n),
                None => Err(ParseErrorView::Invalid { input: scan.input }),
            },
        },
    }
}

/// Where the first terms go beyond a `u64`, all of them do.
proof fn lemma_sum_overflows(terms: Seq<Term>, fraction_parts: Seq<u64>, k: int)
    requires
        0 <= k <= terms.len(),
        terms.len() == fraction_parts.len(),
        sum_nanos(terms.take(k), fraction_parts.take(k)) is None,
    ensures
        sum_nanos(terms, fraction_parts) is None,
    decreases terms.len(),
{
    if k == terms.len() {
        assert(terms.take(k) =~= terms);
        assert(fraction_parts.take(k) =~= fraction_parts);
    } else {
        assert(terms.drop_last().take(k) =~= terms.take(k));
        assert(fraction_parts.drop_last().take(k) =~= fraction_parts.take(k));
        lemma_sum_overflows(terms.drop_last(), fraction_parts.drop_last(), k);
    }
}

/// Where no term has digits after its point that count, the duration does
/// not depend on what the fractions are said to come to.
pub proof fn lemma_whole_terms_need_no_fractions(scan: ScanView, one: Seq<u64>, other: Seq<u64>)
    requires
        one.len() == scan.terms.len(),
        other.len() == scan.terms.len(),
        forall|i: int| 0 <= i < scan.terms.len() ==> (#[trigger] scan.terms[i]).fraction == 0,
    ensures
        resolved(scan, one) == resolved(scan, other),
{
    lemma_whole_sum(scan.terms, one, other);
}

/// Terms without digits that count after the point come to the same sum
/// whatever their fractions are said to come to.
proof fn lemma_whole_sum(terms: Seq<Term>, one: Seq<u64>, other: Seq<u64>)
    requires
        one.len() == terms.len(),
        other.len() == terms.len(),
        forall|i: int| 0 <= i < terms.len() ==> (#[trigger] terms[i]).fraction == 0,
    ensures
        sum_nanos(terms, one) == sum_nanos(terms, other),
    decreases terms.len(),
{
    if terms.len() > 0 {
        let front = terms.drop_last();
        assert forall|i: int| 0 <= i < front.len() implies (#[trigger] front[i]).fraction == 0 by {
            assert(front[i] == terms[i]);
        }
        lemma_whole_sum(front, one.drop_last(), other.drop_last());
        assert(terms.last() == terms[terms.len() - 1]);
    }
}

impl Duration {
    /// Finds the numbers and units in the text of a duration,
    /// `[-+]?([0-9]*(\.[0-9]*)?[^0-9.]+)+`, up to the first piece that is
    /// none.
    pub fn scan(value: &str) -> (r: Scan)
        ensures
            r@ == scan_of(value@),
    {
        let s = value.as_bytes();
        let n = s.len();

        // Consume [-+]?
        let mut p: usize = 0;
        let mut negative = false;
        if n > 0 {
            let c = s[0];
            if c == MINUS || c == PLUS {
                p = 1;
                negative = c == MINUS;
            }
        }
        let ghost start = p;
        let mut terms: Vec<Term> = Vec::new();

        // Special case: if all that is left is "0", this is zero.
        if n == p + 1 && s[p] == DIGIT_ZERO {
            return Scan { input: value.to_owned(), negative, terms, failure: None };
        }
        if p == n {
            return Scan {
                input: value.to_owned(),
                negative,
                terms,
                failure: Some(DurationParseError::invalid(value)),
            };
        }
        let mut failure: Option<DurationParseError> = None;
        proof {
            assert(terms@ + pieces_from(s@, p as int).0 =~= pieces_from(s@, start as int).0);
        }
        proof {
            encode_utf8_valid_utf8(value@);
        }
        while p < n && failure.is_none()
            invariant
                n == s@.len(),
                valid_utf8(s@),
                start <= p <= n,
                failure is None ==> pieces_from(s@, start as int).0 == terms@ + pieces_from(
                    s@,
                    p as int,
                ).0,
                failure is None ==> pieces_from(s@, start as int).1 == pieces_from(s@, p as int).1,
                failure is Some ==> pieces_from(s@, start as int).0 == terms@,
                failure matches Some(e) ==> pieces_from(s@, start as int).1 matches Some(flaw)
                    && e@ == error_of(flaw, value@),
            decreases
                    n - p + (if failure is None {
                        1int
                    } else {
                        0int
                    }),
        {
            let ghost before = terms@;
            match scan_piece(s, p, value) {
                Ok((term, next)) => {
                    terms.push(term);
                    proof {
                        let rest = pieces_from(s@, next as int);
                        assert(before + (seq![term] + rest.0) =~= before.push(term) + rest.0);
                    }
                    p = next;
                },
                Err(e) => {
                    proof {
                        assert(before + Seq::<Term>::empty() =~= before);
                    }
                    failure = Some(e);
                },
            }
        }
        proof {
            if failure is None {
                assert(terms@ + Seq::<Term>::empty() =~= terms@);
            }
        }
        Scan { input: value.to_owned(), negative, terms, failure }
    }
}

impl Scan {
    /// The terms of the text, as far as they are well formed.
    pub fn terms(&self) -> (r: &Vec<Term>)
        ensures
            r@ == self@.terms,
    {
        &self.terms
    }

    /// Adds up the terms of the scan. `fraction_parts` holds for each term,
    /// in their order, what the digits after its point come to in
    /// nanoseconds.
    pub fn resolve(self, fraction_parts: &Vec<u64>) -> (r: Result<Duration, DurationParseError>)
        requires
            fraction_parts.len() == self@.terms.len(),
        ensures
            match resolved(self@, fraction_parts@) {
                Ok(n) => r matches Ok(d) && d@ == n,
                Err(e) => r matches Err(x) && x@ == e,
            },
    {
        let mut d: u64 = 0;
        let mut i: usize = 0;
        proof {
            assert(self.terms@.take(0) =~= Seq::<Term>::empty());
        }
        while i < self.terms.len()
            invariant
                i <= self.terms.len(),
                fraction_parts.len() == self.terms.len(),
                sum_nanos(self.terms@.take(i as int), fraction_parts@.take(i as int)) == Some(
                    d as nat,
                ),
            decreases self.terms.len() - i,
        {
            let term = self.terms[i];
            let part = fraction_parts[i];
            proof {
                let terms = self.terms@.take(i + 1);
                let parts = fraction_parts@.take(i + 1);
                assert(terms.drop_last() =~= self.terms@.take(i as int));
                assert(parts.drop_last() =~= fraction_parts@.take(i as int));
                assert(terms.last() == term);
                assert(parts.last() == part);
            }
            let whole = term.whole.checked_mul(term.unit);
            let nanos = match whole {
                None => None,
                Some(v) => if term.fraction > 0 {
                    v.checked_add(part)
                } else {
                    Some(v)
                },
            };
            let sum = match nanos {
                None => None,
                Some(v) => d.checked_add(v),
            };
            match sum {
                Some(v) => {
                    d = v;
                },
                None => {
                    proof {
                        lemma_sum_overflows(self.terms@, fraction_parts@, i + 1);
                    }
                    return Err(DurationParseError::Invalid { input: self.input });
                },
            }
            i = i + 1;
        }
        proof {
            assert(self.terms@.take(i as int) =~= self.terms@);
            assert(fraction_parts@.take(i as int) =~= fraction_parts@);
        }
        match self.failure {
            Some(e) => {
                return Err(e);
            },
            None => {},
        }
        if self.negative {
            // special case i64::MIN, as it's absolute value is bigger than i64::MAX, so we
            // can't just negate it
            if d == 9_223_372_036_854_775_808u64 {
                Ok(Duration::from_nanoseconds(Duration::MIN))
            } else if d < 9_223_372_036_854_775_808u64 {
                Ok(Duration::from_nanoseconds(-(d as i64)))
            } else {
                Err(DurationParseError::Invalid { input: self.input })
            }
        } else if d <= 9_223_372_036_854_775_807u64 {
            Ok(Duration::from_nanoseconds(d as i64))
        } else {
            Err(DurationParseError::Invalid { input: self.input })
        }
    }
}

} // verus!
