//! A span of time counted in nanoseconds, and the way it is written.

use crate::meta::decimal::{
    decimal, fraction, lemma_decimal_is_ascii, lemma_fraction_is_ascii, padded, pow10, DIGIT_ZERO,
};
use crate::meta::formatting::{frac, integer};
use crate::text::{
    is_ascii_bytes, lemma_ascii_is_utf8, lemma_reverse_concat, reversed, string_from_utf8,
};
use std::num::TryFromIntError;
use vstd::prelude::*;
use vstd::utf8::{
    decode_utf8, decode_utf8_encode_utf8, encode_utf8, pop_first_scalar, valid_first_scalar, valid_utf8,
    valid_utf8_concat,
};

verus! {

/// A Duration represents the elapsed time between two instants
/// as an i64 nanosecond count. The representation limits the
/// largest representable duration to approximately 290 years.
#[derive(Clone, Copy, Debug, PartialEq, Eq, PartialOrd, Ord, Structural)]
pub struct Duration(i64);

impl View for Duration {
    type V = int;

    /// The number of nanoseconds.
    closed spec fn view(&self) -> int {
        self.0 as int
    }
}

/// The ASCII hyphen, the sign of a negative duration.
pub const MINUS: u8 = 0x2d;

/// The ASCII letter `h`.
pub const LETTER_H: u8 = 0x68;

/// The ASCII letter `m`.
pub const LETTER_M: u8 = 0x6d;

/// The ASCII letter `n`.
pub const LETTER_N: u8 = 0x6e;

/// The ASCII letter `s`.
pub const LETTER_S: u8 = 0x73;

/// The first byte of the micro sign U+00B5 in UTF-8.
pub const MICRO_SIGN_LEAD: u8 = 0xc2;

/// The second byte of the micro sign U+00B5 in UTF-8.
pub const MICRO_SIGN_TAIL: u8 = 0xb5;

#[verifier::external_type_specification]
#[verifier::external_body]
pub struct ExSignedDuration(time::SignedDuration);

/// What `time::SignedDuration::whole_nanoseconds` returns for `span`: the
/// number of nanoseconds in it.
pub uninterp spec fn whole_nanoseconds_of(span: time::SignedDuration) -> int;

/// `time::SignedDuration::new`: the span of `seconds` seconds and
/// `nanoseconds` nanoseconds. With less than a second of nanoseconds the
/// call does not overflow.
#[verifier::external_body]
fn time_span_new(seconds: i64, nanoseconds: i32) -> (span: time::SignedDuration)
    requires
        -1_000_000_000 < nanoseconds < 1_000_000_000,
    ensures
        whole_nanoseconds_of(span) == seconds * 1_000_000_000 + nanoseconds,
{
    time::SignedDuration::new(seconds, nanoseconds)
}

/// `time::SignedDuration::whole_nanoseconds`: the number of nanoseconds in
/// the span.
#[verifier::external_body]
fn time_span_whole_nanoseconds(span: time::SignedDuration) -> (nanoseconds: i128)
    ensures
        nanoseconds == whole_nanoseconds_of(span),
{
    span.whole_nanoseconds()
}

/// The quotient of `a` by a positive `b`, rounded toward zero.
pub open spec fn quotient_toward_zero(a: int, b: int) -> int {
    if a >= 0 {
        a / b
    } else {
        -((-a) / b)
    }
}

/// How a span of `u` nanoseconds is written, `u` being positive: below one
/// second in the largest of `ns`, `µs` and `ms` that leaves a whole part,
/// else as hours, minutes and seconds without the leading units that are
/// zero. Only the last number has a fraction.
pub open spec fn magnitude_text(u: nat) -> Seq<u8> {
    if u < 1_000 {
        decimal(u) + seq![LETTER_N, LETTER_S]
    } else if u < 1_000_000 {
        decimal(u / 1_000) + fraction(u, 3) + seq![MICRO_SIGN_LEAD, MICRO_SIGN_TAIL, LETTER_S]
    } else if u < 1_000_000_000 {
        decimal(u / 1_000_000) + fraction(u, 6) + seq![LETTER_M, LETTER_S]
    } else {
        let seconds = u / 1_000_000_000;
        let minutes = seconds / 60;
        let hours = minutes / 60;
        hours_text(hours) + minutes_text(minutes) + decimal(seconds % 60) + fraction(u, 9)
            + seq![LETTER_S]
    }
}

/// The hours of a duration as they are written: nothing for zero hours.
pub open spec fn hours_text(hours: nat) -> Seq<u8> {
    if hours > 0 {
        decimal(hours) + seq![LETTER_H]
    } else {
        Seq::empty()
    }
}

/// The minutes of a duration as they are written, `minutes` being all its
/// minutes: nothing where it has none, else those beyond the whole hours.
pub open spec fn minutes_text(minutes: nat) -> Seq<u8> {
    if minutes > 0 {
        decimal(minutes % 60) + seq![LETTER_M]
    } else {
        Seq::empty()
    }
}

/// The UTF-8 text of a duration of `n` nanoseconds, in the form
/// "72h3m0.5s". The zero duration is written `0s`, a negative one with a
/// leading hyphen.
pub open spec fn duration_text(n: int) -> Seq<u8> {
    if n == 0 {
        seq![DIGIT_ZERO, LETTER_S]
    } else if n < 0 {
        seq![MINUS] + magnitude_text((-n) as nat)
    } else {
        magnitude_text(n as nat)
    }
}

/// The micro sign in UTF-8, followed by `s`, is valid UTF-8.
proof fn lemma_micro_unit_is_utf8()
    ensures
        valid_utf8(seq![MICRO_SIGN_LEAD, MICRO_SIGN_TAIL, LETTER_S]),
{
    let unit = seq![MICRO_SIGN_LEAD, MICRO_SIGN_TAIL, LETTER_S];
    let lead: u8 = MICRO_SIGN_LEAD;
    let tail: u8 = MICRO_SIGN_TAIL;
    assert((((lead & 0x1f) as u32) << 6) | ((tail & 0x3f) as u32) == 0xb5u32) by (bit_vector)
        requires
            lead == 0xc2u8,
            tail == 0xb5u8,
    ;
    assert(valid_first_scalar(unit));
    let rest = seq![LETTER_S];
    assert(pop_first_scalar(unit) =~= rest);
    assert(is_ascii_bytes(rest));
    lemma_ascii_is_utf8(rest);
}

/// What a duration is written as is valid UTF-8.
pub proof fn lemma_duration_text_is_utf8(n: int)
    ensures
        valid_utf8(duration_text(n)),
{
    if n == 0 {
        assert(is_ascii_bytes(duration_text(n)));
        lemma_ascii_is_utf8(duration_text(n));
    } else {
        let u = (if n < 0 {
            -n
        } else {
            n
        }) as nat;
        lemma_magnitude_text_is_utf8(u);
        if n < 0 {
            assert(is_ascii_bytes(seq![MINUS]));
            lemma_ascii_is_utf8(seq![MINUS]);
            valid_utf8_concat(seq![MINUS], magnitude_text(u));
        }
    }
}

/// The concatenation of two runs of ASCII bytes is a run of ASCII bytes.
proof fn lemma_ascii_concat(a: Seq<u8>, b: Seq<u8>)
    requires
        is_ascii_bytes(a),
        is_ascii_bytes(b),
    ensures
        is_ascii_bytes(a + b),
{
    assert forall|i: int| 0 <= i < (a + b).len() implies #[trigger] (a + b)[i] < 0x80 by {
        if i < a.len() {
            assert((a + b)[i] == a[i]);
        } else {
            assert((a + b)[i] == b[i - a.len()]);
        }
    }
}

/// What the magnitude of a duration is written as is valid UTF-8.
proof fn lemma_magnitude_text_is_utf8(u: nat)
    ensures
        valid_utf8(magnitude_text(u)),
{
    if u < 1_000 {
        lemma_decimal_is_ascii(u);
        let unit = seq![LETTER_N, LETTER_S];
        assert(is_ascii_bytes(unit));
        lemma_ascii_concat(decimal(u), unit);
        lemma_ascii_is_utf8(magnitude_text(u));
    } else if u < 1_000_000 {
        lemma_decimal_is_ascii(u / 1_000);
        lemma_fraction_is_ascii(u, 3);
        lemma_ascii_concat(decimal(u / 1_000), fraction(u, 3));
        lemma_ascii_is_utf8(decimal(u / 1_000) + fraction(u, 3));
        lemma_micro_unit_is_utf8();
        valid_utf8_concat(
            decimal(u / 1_000) + fraction(u, 3),
            seq![MICRO_SIGN_LEAD, MICRO_SIGN_TAIL, LETTER_S],
        );
    } else if u < 1_000_000_000 {
        lemma_decimal_is_ascii(u / 1_000_000);
        lemma_fraction_is_ascii(u, 6);
        let unit = seq![LETTER_M, LETTER_S];
        assert(is_ascii_bytes(unit));
        lemma_ascii_concat(decimal(u / 1_000_000), fraction(u, 6));
        lemma_ascii_concat(decimal(u / 1_000_000) + fraction(u, 6), unit);
        lemma_ascii_is_utf8(magnitude_text(u));
    } else {
        let seconds = u / 1_000_000_000;
        let minutes = seconds / 60;
        let hours = minutes / 60;
        lemma_decimal_is_ascii(hours);
        lemma_decimal_is_ascii(minutes % 60);
        lemma_decimal_is_ascii(seconds % 60);
        lemma_fraction_is_ascii(u, 9);
        assert(is_ascii_bytes(seq![LETTER_H]));
        assert(is_ascii_bytes(seq![LETTER_M]));
        assert(is_ascii_bytes(seq![LETTER_S]));
        assert(is_ascii_bytes(Seq::<u8>::empty()));
        lemma_ascii_concat(decimal(hours), seq![LETTER_H]);
        lemma_ascii_concat(decimal(minutes % 60), seq![LETTER_M]);
        lemma_ascii_concat(hours_text(hours), minutes_text(minutes));
        lemma_ascii_concat(hours_text(hours) + minutes_text(minutes), decimal(seconds % 60));
        lemma_ascii_concat(
            hours_text(hours) + minutes_text(minutes) + decimal(seconds % 60),
            fraction(u, 9),
        );
        lemma_ascii_concat(
            hours_text(hours) + minutes_text(minutes) + decimal(seconds % 60) + fraction(u, 9),
            seq![LETTER_S],
        );
        lemma_ascii_is_utf8(magnitude_text(u));
    }
}

/// Appends a positive span below one second, last byte first.
fn write_subsecond(buf: &mut Vec<u8>, u: u64)
    requires
        u < 1_000_000_000,
    ensures
        final(buf)@ == old(buf)@ + magnitude_text(u as nat).reverse(),
{
    // Special case: if duration is smaller than a second,
    // use smaller units, like 1.2ms
    buf.push(LETTER_S);
    if u < 1_000 {
        // print nanoseconds
        buf.push(LETTER_N);
        let ghost unit = seq![LETTER_N, LETTER_S];
        assert(buf@ =~= old(buf)@ + unit.reverse());
        let whole = frac(buf, u, 0);
        integer(buf, whole);
        proof {
            assert(pow10(0) == 1);
            assert(padded(u as nat, 0) =~= Seq::<u8>::empty());
            assert(fraction(u as nat, 0) =~= Seq::<u8>::empty());
            assert(u as nat / 1 == u as nat);
            lemma_reverse_concat(decimal(u as nat), unit);
            assert(buf@ =~= old(buf)@ + (decimal(u as nat) + unit).reverse());
        }
    } else if u < 1_000_000 {
        // print microseconds
        // U+00B5 'µ' micro sign == 0xC2 0xB5
        buf.push(MICRO_SIGN_TAIL);
        buf.push(MICRO_SIGN_LEAD);
        let ghost unit = seq![MICRO_SIGN_LEAD, MICRO_SIGN_TAIL, LETTER_S];
        assert(buf@ =~= old(buf)@ + unit.reverse());
        let whole = frac(buf, u, 3);
        integer(buf, whole);
        proof {
            assert(pow10(3) == 1_000) by {
                reveal_with_fuel(pow10, 4);
            }
            lemma_written_reversed(old(buf)@, decimal(whole as nat), fraction(u as nat, 3), unit);
        }
    } else {
        // print milliseconds
        buf.push(LETTER_M);
        let ghost unit = seq![LETTER_M, LETTER_S];
        assert(buf@ =~= old(buf)@ + unit.reverse());
        let whole = frac(buf, u, 6);
        integer(buf, whole);
        proof {
            assert(pow10(6) == 1_000_000) by {
                reveal_with_fuel(pow10, 7);
            }
            lemma_written_reversed(old(buf)@, decimal(whole as nat), fraction(u as nat, 6), unit);
        }
    }
}

/// Three parts appended last part first, each reversed, are the reverse of
/// the parts in their order.
proof fn lemma_written_reversed(head: Seq<u8>, a: Seq<u8>, b: Seq<u8>, c: Seq<u8>)
    ensures
        head + c.reverse() + b.reverse() + a.reverse() == head + (a + b + c).reverse(),
{
    lemma_reverse_concat(a + b, c);
    lemma_reverse_concat(a, b);
    assert(head + c.reverse() + b.reverse() + a.reverse() =~= head + (c.reverse() + (b.reverse()
        + a.reverse())));
}

/// Appends a span of one second or more, last byte first.
fn write_clock(buf: &mut Vec<u8>, u: u64)
    requires
        u >= 1_000_000_000,
    ensures
        final(buf)@ == old(buf)@ + magnitude_text(u as nat).reverse(),
{
    buf.push(LETTER_S);
    let ghost unit = seq![LETTER_S];
    assert(buf@ =~= old(buf)@ + unit.reverse());

    let seconds = frac(buf, u, 9);
    proof {
        assert(pow10(9) == 1_000_000_000) by {
            reveal_with_fuel(pow10, 10);
        }
    }

    // seconds is now integer seconds
    integer(buf, seconds % 60);
    let ghost tail = decimal((seconds % 60) as nat) + fraction(u as nat, 9) + unit;
    proof {
        lemma_written_reversed(
            old(buf)@,
            decimal((seconds % 60) as nat),
            fraction(u as nat, 9),
            unit,
        );
    }
    assert(buf@ == old(buf)@ + tail.reverse());
    let minutes = seconds / 60;

    // minutes is now integer minutes
    if minutes > 0 {
        buf.push(LETTER_M);
        integer(buf, minutes % 60);
        let ghost middle = minutes_text(minutes as nat) + tail;
        proof {
            let m = seq![LETTER_M];
            assert(m.reverse() =~= m);
            assert(buf@ =~= old(buf)@ + tail.reverse() + m.reverse() + decimal(
                (minutes % 60) as nat,
            ).reverse());
            lemma_written_reversed(old(buf)@, decimal((minutes % 60) as nat), m, tail);
            assert(decimal((minutes % 60) as nat) + m + tail =~= middle);
        }
        assert(buf@ == old(buf)@ + middle.reverse());
        let hours = minutes / 60;

        // hours is now integer hours
        // Stop at hours because days can be different lengths.
        if hours > 0 {
            buf.push(LETTER_H);
            integer(buf, hours);
            proof {
                let h = seq![LETTER_H];
                assert(h.reverse() =~= h);
                assert(buf@ =~= old(buf)@ + middle.reverse() + h.reverse() + decimal(
                    hours as nat,
                ).reverse());
                lemma_written_reversed(old(buf)@, decimal(hours as nat), h, middle);
                assert(decimal(hours as nat) + h + middle =~= magnitude_text(u as nat));
            }
        } else {
            assert(middle =~= magnitude_text(u as nat));
        }
    } else {
        assert(tail =~= magnitude_text(u as nat));
    }
}

impl Duration {
    /// The nanosecond count of the zero duration.
    pub const ZERO: i64 = 0;

    /// The nanosecond count of the shortest duration.
    pub const MIN: i64 = -9_223_372_036_854_775_808;

    /// The nanosecond count of the longest duration.
    pub const MAX: i64 = 9_223_372_036_854_775_807;

    /// The nanosecond count of one nanosecond.
    pub const NANOSECOND: i64 = 1;

    /// The nanosecond count of one microsecond.
    pub const MICROSECOND: i64 = 1_000;

    /// The nanosecond count of one millisecond.
    pub const MILLISECOND: i64 = 1_000_000;

    /// The nanosecond count of one second.
    pub const SECOND: i64 = 1_000_000_000;

    /// The nanosecond count of one minute.
    pub const MINUTE: i64 = 60_000_000_000;

    /// The nanosecond count of one hour.
    pub const HOUR: i64 = 3_600_000_000_000;

    /// The duration of `nanoseconds` nanoseconds.
    pub fn from_nanoseconds(nanoseconds: i64) -> (r: Duration)
        ensures
            r@ == nanoseconds,
    {
        Duration(nanoseconds)
    }

    /// Nanoseconds returns the duration as an integer nanosecond count.
    pub fn nanoseconds(&self) -> (r: i64)
        ensures
            r == self@,
    {
        self.0
    }

    /// Microseconds returns the duration as an integer microsecond count.
    pub fn microseconds(&self) -> (r: i64)
        ensures
            r == quotient_toward_zero(self@, 1_000),
    {
        self.0 / 1_000
    }

    /// Milliseconds returns the duration as an integer millisecond count.
    pub fn milliseconds(&self) -> (r: i64)
        ensures
            r == quotient_toward_zero(self@, 1_000_000),
    {
        self.0 / 1_000_000
    }

    /// The duration as an integer second count.
    pub fn whole_seconds(&self) -> (r: i64)
        ensures
            r == quotient_toward_zero(self@, 1_000_000_000),
    {
        self.0 / 1_000_000_000
    }

    /// The size of the duration without its sign.
    fn magnitude(&self) -> (u: u64)
        ensures
            u == if self@ < 0 {
                -self@
            } else {
                self@
            },
    {
        if self.0 >= 0 {
            self.0 as u64
        } else if self.0 == Duration::MIN {
            9_223_372_036_854_775_808u64
        } else {
            (-self.0) as u64
        }
    }

    /// The text of the duration, last byte first.
    fn text_reversed(&self) -> (buf: Vec<u8>)
        requires
            self@ != 0,
        ensures
            buf@ == duration_text(self@).reverse(),
    {
        // Largest time is 2540400h10m10.000000000s
        let mut buf: Vec<u8> = Vec::with_capacity(32);
        let neg = self.0 < 0;
        let u = self.magnitude();
        if u < 1_000_000_000 {
            write_subsecond(&mut buf, u);
        } else {
            write_clock(&mut buf, u);
        }
        proof {
            assert(buf@ =~= magnitude_text(u as nat).reverse());
        }
        if neg {
            buf.push(MINUS);
            proof {
                lemma_reverse_concat(seq![MINUS], magnitude_text(u as nat));
                assert(seq![MINUS].reverse() =~= seq![MINUS]);
            }
        }
        buf
    }

    /// The duration as text in the form "72h3m0.5s".
    /// Leading zero units are omitted. As a special case, durations less than one
    /// second format use a smaller unit (milli-, micro-, or nanoseconds) to ensure
    /// that the leading digit is non-zero. The zero duration formats as 0s.
    pub fn to_string(&self) -> (r: String)
        ensures
            encode_utf8(r@) == duration_text(self@),
            r@ == decode_utf8(duration_text(self@)),
    {
        let mut bytes: Vec<u8> = Vec::new();
        if self.0 == 0 {
            bytes.push(DIGIT_ZERO);
            bytes.push(LETTER_S);
            assert(bytes@ =~= duration_text(self@));
        } else {
            let buf = self.text_reversed();
            bytes = reversed(&buf);
            assert(bytes@ =~= duration_text(self@));
        }
        proof {
            lemma_duration_text_is_utf8(self@);
            decode_utf8_encode_utf8(bytes@);
        }
        match string_from_utf8(bytes) {
            Some(text) => text,
            // What was written is valid UTF-8, so this arm is never taken.
            None => String::new(),
        }
    }

    /// The whole seconds of the duration and the nanoseconds beyond them,
    /// both with the sign of the duration.
    pub fn seconds_and_nanoseconds(&self) -> (r: (i64, i32))
        ensures
            r.0 == quotient_toward_zero(self@, 1_000_000_000),
            r.0 * 1_000_000_000 + r.1 == self@,
            -1_000_000_000 < r.1 < 1_000_000_000,
    {
        let seconds = self.whole_seconds();
        let nanos = self.0 - (seconds * 1_000_000_000);
        (seconds, nanos as i32)
    }

    /// The duration as a span of the `time` crate.
    pub fn into_time(self) -> (span: time::SignedDuration)
        ensures
            whole_nanoseconds_of(span) == self@,
    {
        let (seconds, nanos) = self.seconds_and_nanoseconds();
        time_span_new(seconds, nanos)
    }

    /// The duration of a span of the `time` crate, where an `i64` can
    /// count its nanoseconds.
    pub fn try_from_time(span: time::SignedDuration) -> (r: Result<Duration, TryFromIntError>)
        ensures
            r is Ok <==> i64::MIN <= whole_nanoseconds_of(span) <= i64::MAX,
            r matches Ok(d) ==> d@ == whole_nanoseconds_of(span),
    {
        let nanos = time_span_whole_nanoseconds(span);
        Duration::try_from_whole_nanoseconds(nanos)
    }

    /// The duration of `nanoseconds` nanoseconds, where an `i64` can count
    /// them.
    pub fn try_from_whole_nanoseconds(nanoseconds: i128) -> (r: Result<Duration, TryFromIntError>)
        ensures
            r is Ok <==> i64::MIN <= nanoseconds <= i64::MAX,
            r matches Ok(d) ==> d@ == nanoseconds,
    {
        match i64::try_from(nanoseconds) {
            Ok(n) => Ok(Duration(n)),
            Err(e) => Err(e),
        }
    }
}

} // verus!
