//! Writing numbers into the tail of a buffer, lowest digit first.

use crate::meta::decimal::{
    DIGIT_ZERO, POINT, decimal, digit_byte, digits, fraction, lemma_padded_lead,
    lemma_pow10_positive, lemma_trimmed_lead, padded, pow10, trimmed,
};
use vstd::prelude::*;

verus! {

/// The number of fraction digits that a precision asks for.
pub open spec fn width_of(prec: i32) -> nat {
    if prec > 0 {
        prec as nat
    } else {
        0
    }
}

/// frac formats the fraction of v/10**prec (e.g., ".12345") into the
/// tail of buf, omitting trailing zeros. It omits the decimal
/// point too when the fraction is 0. It returns the value v/10**prec.
/// The bytes are appended in reverse: the last digit comes first, the
/// point last.
pub fn frac(buf: &mut Vec<u8>, v: u64, prec: i32) -> (r: u64)
    ensures
        final(buf)@ == old(buf)@ + fraction(v as nat, width_of(prec)).reverse(),
        r == v as nat / pow10(width_of(prec)),
{
    // Omit trailing zeros up to and including decimal point.
    let mut print = false;
    let mut i: i32 = 0;
    let mut w: u64 = v;
    proof {
        assert(padded(v as nat, 0) =~= Seq::<u8>::empty());
        assert(trimmed(Seq::<u8>::empty()) =~= Seq::<u8>::empty());
        assert(old(buf)@ + Seq::<u8>::empty().reverse() =~= old(buf)@);
        assert(pow10(0) == 1);
        assert(v as nat / 1 == v as nat);
    }
    while i < prec
        invariant
            0 <= i,
            i <= prec || i == 0,
            w == v as nat / pow10(i as nat),
            print == (trimmed(padded(v as nat, i as nat)).len() > 0),
            buf@ == old(buf)@ + trimmed(padded(v as nat, i as nat)).reverse(),
        decreases prec - i,
    {
        let ghost before = trimmed(padded(v as nat, i as nat));
        let digit = (w % 10) as u8;
        let ghost d = digit_byte(digit as int);
        proof {
            lemma_padded_lead(v as nat, i as nat);
            lemma_trimmed_lead(d, padded(v as nat, i as nat));
            lemma_pow10_positive(i as nat);
            assert(w as nat / 10 == v as nat / pow10((i + 1) as nat)) by {
                lemma_pow10_step(v as nat, i as nat);
            }
        }
        i += 1;
        print = print || digit != 0;
        if print {
            buf.push(digit + DIGIT_ZERO);
            proof {
                let after = trimmed(padded(v as nat, i as nat));
                assert(after == seq![d] + before);
                assert(after.reverse() =~= before.reverse().push(d));
            }
        }
        w /= 10;
    }

    if print {
        buf.push(POINT);
        proof {
            let d = trimmed(padded(v as nat, width_of(prec)));
            assert((seq![POINT] + d).reverse() =~= d.reverse().push(POINT));
        }
    }
    w
}

/// integer formats v in decimal into the tail of buf, in reverse: the last
/// digit comes first.
pub fn integer(buf: &mut Vec<u8>, v: u64)
    ensures
        final(buf)@ == old(buf)@ + decimal(v as nat).reverse(),
{
    if v == 0 {
        buf.push(DIGIT_ZERO);
        proof {
            assert(decimal(0).reverse() =~= seq![DIGIT_ZERO]);
        }
    } else {
        let mut w: u64 = v;
        let ghost mut done: Seq<u8> = Seq::empty();
        proof {
            assert(digits(v as nat) + done =~= digits(v as nat));
            assert(old(buf)@ + done.reverse() =~= old(buf)@);
        }
        while w > 0
            invariant
                digits(v as nat) == digits(w as nat) + done,
                buf@ == old(buf)@ + done.reverse(),
            decreases w,
        {
            let digit = (w % 10) as u8;
            buf.push(digit + DIGIT_ZERO);
            proof {
                let d = digit_byte(digit as int);
                let next = seq![d] + done;
                assert(digits(w as nat) == digits(w as nat / 10).push(d));
                assert(digits(w as nat / 10).push(d) + done =~= digits(w as nat / 10) + next);
                assert(next.reverse() =~= done.reverse().push(d));
                done = next;
            }
            w /= 10;
        }
        proof {
            assert(digits(0) + done =~= done);
        }
    }
}

/// One more division by ten reaches the next power of ten.
proof fn lemma_pow10_step(v: nat, i: nat)
    ensures
        (v / pow10(i)) / 10 == v / pow10(i + 1),
{
    lemma_pow10_positive(i);
    let p = pow10(i);
    assert(pow10(i + 1) == 10 * p);
    assert((v / p) / 10 == v / (10 * p)) by (nonlinear_arith)
        requires
            p > 0,
    ;
}

} // verus!
