//! Decimal digits as bytes, in the forms a duration is written with.

use crate::text::is_ascii_bytes;
use vstd::prelude::*;

verus! {

/// The ASCII digit `0`.
pub const DIGIT_ZERO: u8 = 0x30;

/// The ASCII digit `9`.
pub const DIGIT_NINE: u8 = 0x39;

/// The ASCII full stop.
pub const POINT: u8 = 0x2e;

/// Ten to the power `n`.
pub open spec fn pow10(n: nat) -> nat
    decreases n,
{
    if n == 0 {
        1
    } else {
        10 * pow10((n - 1) as nat)
    }
}

/// The ASCII digit for `d`, a value below ten.
pub open spec fn digit_byte(d: int) -> u8 {
    (DIGIT_ZERO + d) as u8
}

/// The decimal digits of `v`, most significant first; none for zero.
pub open spec fn digits(v: nat) -> Seq<u8>
    decreases v,
{
    if v == 0 {
        Seq::empty()
    } else {
        digits(v / 10).push(digit_byte((v % 10) as int))
    }
}

/// `v` written in decimal: its digits, or `0` for zero.
pub open spec fn decimal(v: nat) -> Seq<u8> {
    if v == 0 {
        seq![DIGIT_ZERO]
    } else {
        digits(v)
    }
}

/// The `width` lowest decimal digits of `v`, most significant first,
/// zeros included.
pub open spec fn padded(v: nat, width: nat) -> Seq<u8>
    decreases width,
{
    if width == 0 {
        Seq::empty()
    } else {
        padded(v / 10, (width - 1) as nat).push(digit_byte((v % 10) as int))
    }
}

/// `s` without the zeros at its end.
pub open spec fn trimmed(s: Seq<u8>) -> Seq<u8>
    decreases s.len(),
{
    if s.len() > 0 && s.last() == DIGIT_ZERO {
        trimmed(s.drop_last())
    } else {
        s
    }
}

/// The fraction `(v mod 10^width) / 10^width` as it is written: a point and
/// the digits up to the last one that is not zero, or nothing when the
/// fraction is zero.
pub open spec fn fraction(v: nat, width: nat) -> Seq<u8> {
    let d = trimmed(padded(v, width));
    if d.len() == 0 {
        d
    } else {
        seq![POINT] + d
    }
}

/// The digit that stands `i` places above the lowest one leads the `i + 1`
/// lowest digits.
pub proof fn lemma_padded_lead(v: nat, i: nat)
    ensures
        padded(v, i + 1) == seq![digit_byte(((v / pow10(i)) % 10) as int)] + padded(v, i),
    decreases i,
{
    if i == 0 {
        assert(padded(v, 1) =~= seq![digit_byte((v % 10) as int)]) by {
            assert(padded(v / 10, 0) =~= Seq::<u8>::empty());
        }
        assert(padded(v, 0) =~= Seq::<u8>::empty());
        assert(seq![digit_byte(((v / 1) % 10) as int)] + Seq::<u8>::empty() =~= seq![
            digit_byte((v % 10) as int),
        ]);
    } else {
        lemma_padded_lead(v / 10, (i - 1) as nat);
        assert((v / 10) / pow10((i - 1) as nat) == v / pow10(i)) by {
            lemma_div_pow10(v, (i - 1) as nat);
        }
        let lead = seq![digit_byte(((v / pow10(i)) % 10) as int)];
        let last = digit_byte((v % 10) as int);
        assert(padded(v, i + 1) == padded(v / 10, i).push(last));
        assert(padded(v / 10, i) == lead + padded(v / 10, (i - 1) as nat));
        assert(padded(v, i) == padded(v / 10, (i - 1) as nat).push(last));
        assert((lead + padded(v / 10, (i - 1) as nat)).push(last) =~= lead + padded(
            v / 10,
            (i - 1) as nat,
        ).push(last));
    }
}

/// Dividing by ten and then by `10^i` divides by `10^(i + 1)`.
pub proof fn lemma_div_pow10(v: nat, i: nat)
    ensures
        (v / 10) / pow10(i) == v / pow10(i + 1),
        pow10(i) > 0,
{
    lemma_pow10_positive(i);
    let p = pow10(i);
    assert(pow10(i + 1) == 10 * p);
    assert((v / 10) / p == v / (10 * p)) by (nonlinear_arith)
        requires
            p > 0,
    ;
}

/// A power of ten is positive.
pub proof fn lemma_pow10_positive(i: nat)
    ensures
        pow10(i) > 0,
    decreases i,
{
    if i > 0 {
        lemma_pow10_positive((i - 1) as nat);
    }
}

/// Trimming after a digit was put in front: the digit stays unless it is a
/// zero before nothing but zeros.
pub proof fn lemma_trimmed_lead(d: u8, s: Seq<u8>)
    ensures
        trimmed(seq![d] + s) == if trimmed(s).len() > 0 {
            seq![d] + trimmed(s)
        } else if d == DIGIT_ZERO {
            Seq::<u8>::empty()
        } else {
            seq![d]
        },
    decreases s.len(),
{
    let t = seq![d] + s;
    if s.len() == 0 {
        assert(t =~= seq![d]);
        assert(trimmed(s) =~= s);
        if d == DIGIT_ZERO {
            assert(t.drop_last() =~= Seq::<u8>::empty());
            assert(trimmed(t.drop_last()) =~= Seq::<u8>::empty());
        }
    } else if s.last() == DIGIT_ZERO {
        assert(t.last() == DIGIT_ZERO);
        assert(t.drop_last() =~= seq![d] + s.drop_last());
        lemma_trimmed_lead(d, s.drop_last());
    } else {
        assert(t.last() == s.last());
        assert(trimmed(s) == s);
        assert(trimmed(t) == t);
    }
}

/// Written numbers hold ASCII bytes only.
pub proof fn lemma_decimal_is_ascii(v: nat)
    ensures
        is_ascii_bytes(decimal(v)),
{
    lemma_digits_are_ascii(v);
}

/// The digits of a number are ASCII bytes.
pub proof fn lemma_digits_are_ascii(v: nat)
    ensures
        is_ascii_bytes(digits(v)),
    decreases v,
{
    if v > 0 {
        lemma_digits_are_ascii(v / 10);
    }
}

/// The lowest digits of a number are ASCII bytes.
pub proof fn lemma_padded_is_ascii(v: nat, width: nat)
    ensures
        is_ascii_bytes(padded(v, width)),
    decreases width,
{
    if width > 0 {
        lemma_padded_is_ascii(v / 10, (width - 1) as nat);
    }
}

/// Trimming leaves a prefix.
pub proof fn lemma_trimmed_is_prefix(s: Seq<u8>)
    ensures
        trimmed(s).len() <= s.len(),
        trimmed(s) == s.subrange(0, trimmed(s).len() as int),
    decreases s.len(),
{
    if s.len() > 0 && s.last() == DIGIT_ZERO {
        lemma_trimmed_is_prefix(s.drop_last());
        let t = trimmed(s);
        assert(t =~= s.subrange(0, t.len() as int));
    } else {
        assert(s =~= s.subrange(0, s.len() as int));
    }
}

/// A written fraction holds ASCII bytes only.
pub proof fn lemma_fraction_is_ascii(v: nat, width: nat)
    ensures
        is_ascii_bytes(fraction(v, width)),
{
    lemma_padded_is_ascii(v, width);
    lemma_trimmed_is_prefix(padded(v, width));
    let d = trimmed(padded(v, width));
    assert(is_ascii_bytes(d)) by {
        assert forall|i: int| 0 <= i < d.len() implies #[trigger] d[i] < 0x80 by {
            assert(d[i] == padded(v, width)[i]);
        }
    }
    if d.len() > 0 {
        let f = seq![POINT] + d;
        assert forall|i: int| 0 <= i < f.len() implies #[trigger] f[i] < 0x80 by {
            if i > 0 {
                assert(f[i] == d[i - 1]);
            }
        }
    }
}

} // verus!
