//! Helpers on byte strings and their UTF-8 reading.

use vstd::prelude::*;
use vstd::utf8::*;

verus! {

/// Every byte of `bytes` is an ASCII byte.
pub open spec fn is_ascii_bytes(bytes: Seq<u8>) -> bool {
    forall|i: int| 0 <= i < bytes.len() ==> #[trigger] bytes[i] < 0x80
}

/// A sequence of ASCII bytes is valid UTF-8.
pub proof fn lemma_ascii_is_utf8(bytes: Seq<u8>)
    requires
        is_ascii_bytes(bytes),
    ensures
        valid_utf8(bytes),
    decreases bytes.len(),
{
    if bytes.len() > 0 {
        assert(bytes[0] < 0x80);
        let rest = bytes.subrange(1, bytes.len() as int);
        assert(pop_first_scalar(bytes) == rest);
        assert(is_ascii_bytes(rest)) by {
            assert forall|i: int| 0 <= i < rest.len() implies #[trigger] rest[i] < 0x80 by {
                assert(rest[i] == bytes[i + 1]);
            }
        }
        lemma_ascii_is_utf8(rest);
    }
}

/// In valid UTF-8, what stands between an ASCII byte and the next ASCII
/// byte or the end is valid UTF-8.
pub proof fn lemma_between_ascii_is_utf8(bytes: Seq<u8>, from: int, to: int)
    requires
        valid_utf8(bytes),
        0 < from <= to <= bytes.len(),
        bytes[from - 1] < 0x80,
        to < bytes.len() ==> bytes[to] < 0x80,
    ensures
        valid_utf8(bytes.subrange(from, to)),
{
    let n = bytes.len() as int;
    // The ASCII byte before starts a character, and is all of it.
    is_char_boundary_iff_not_is_continuation_byte(bytes, from - 1);
    valid_utf8_split(bytes, from - 1);
    let led = bytes.subrange(from - 1, n);
    assert(led[0] == bytes[from - 1]);
    let tail = bytes.subrange(from, n);
    assert(pop_first_scalar(led) =~= tail);
    assert(valid_utf8(tail));
    // What follows ends before a character or at the end.
    if to < n {
        assert(tail[to - from] == bytes[to]);
        is_char_boundary_iff_not_is_continuation_byte(tail, to - from);
    } else {
        is_char_boundary_start_end_of_seq(tail);
    }
    valid_utf8_split(tail, to - from);
    assert(tail.subrange(0, to - from) =~= bytes.subrange(from, to));
}

/// Two character sequences with the same UTF-8 encoding are the same.
pub proof fn lemma_encode_utf8_injective(a: Seq<char>, b: Seq<char>)
    requires
        encode_utf8(a) == encode_utf8(b),
    ensures
        a == b,
{
    encode_utf8_decode_utf8(a);
    encode_utf8_decode_utf8(b);
}

/// Reversing a concatenation reverses the parts and their order.
pub proof fn lemma_reverse_concat(a: Seq<u8>, b: Seq<u8>)
    ensures
        (a + b).reverse() == b.reverse() + a.reverse(),
{
    assert((a + b).reverse() =~= b.reverse() + a.reverse());
}

/// The bytes of `bytes` in the opposite order.
pub fn reversed(bytes: &Vec<u8>) -> (r: Vec<u8>)
    ensures
        r@ == bytes@.reverse(),
{
    let mut out: Vec<u8> = Vec::new();
    let mut i: usize = bytes.len();
    while i > 0
        invariant
            i <= bytes.len(),
            out@.len() == bytes.len() - i,
            forall|j: int| 0 <= j < out@.len() ==> out@[j] == bytes@[bytes.len() - 1 - j],
        decreases i,
    {
        i = i - 1;
        out.push(bytes[i]);
    }
    assert(out@ =~= bytes@.reverse());
    out
}

/// Whether two byte strings hold the same bytes.
pub fn bytes_equal(a: &[u8], b: &[u8]) -> (r: bool)
    ensures
        r == (a@ == b@),
{
    if a.len() != b.len() {
        return false;
    }
    let mut i: usize = 0;
    while i < a.len()
        invariant
            a.len() == b.len(),
            i <= a.len(),
            forall|j: int| 0 <= j < i ==> a@[j] == b@[j],
        decreases a.len() - i,
    {
        if a[i] != b[i] {
            return false;
        }
        i = i + 1;
    }
    assert(a@ =~= b@);
    true
}

/// Whether two strings hold the same characters.
pub fn str_equal(a: &str, b: &str) -> (r: bool)
    ensures
        r == (a@ == b@),
{
    let same = bytes_equal(a.as_bytes(), b.as_bytes());
    proof {
        if same {
            lemma_encode_utf8_injective(a@, b@);
        }
    }
    same
}

/// `String::from_utf8` of std: it hands back the string that `bytes` encode
/// when, and only when, they are valid UTF-8.
#[verifier::external_body]
pub(crate) fn string_from_utf8(bytes: Vec<u8>) -> (r: Option<String>)
    ensures
        r is Some <==> valid_utf8(bytes@),
        r matches Some(s) ==> s@ == decode_utf8(bytes@),
{
    String::from_utf8(bytes).ok()
}

} // verus!
