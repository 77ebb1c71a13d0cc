//! Bridging bytes and strings: an ASCII view of byte sequences, the one
//! trusted conversion from UTF-8 bytes to `&str`, and decimal rendering
//! into `String`.
use crate::digits::dec_bytes;
use crate::digits::lemma_dec_bytes_digits;
use crate::digits::u64_to_dec;
use vstd::prelude::*;
use vstd::string::StrSliceExecFns;
use vstd::utf8::decode_utf8;
use vstd::utf8::encode_utf8;
use vstd::utf8::encode_utf8_decode_utf8;
use vstd::utf8::encode_utf8_valid_utf8;
use vstd::utf8::is_ascii_chars;
use vstd::utf8::is_ascii_chars_encode_utf8;
use vstd::utf8::valid_utf8;

verus! {

/// The characters of an ASCII byte sequence, one per byte.
pub open spec fn chars_of_ascii(b: Seq<u8>) -> Seq<char> {
    Seq::new(b.len(), |i: int| b[i] as char)
}

pub open spec fn all_ascii(b: Seq<u8>) -> bool {
    forall|i: int| 0 <= i < b.len() ==> b[i] < 0x80
}

/// An ASCII byte sequence is its own UTF-8 encoding.
pub proof fn lemma_ascii_bytes(b: Seq<u8>)
    requires
        all_ascii(b),
    ensures
        encode_utf8(chars_of_ascii(b)) == b,
        valid_utf8(b),
        decode_utf8(b) == chars_of_ascii(b),
{
    let cs = chars_of_ascii(b);
    assert(is_ascii_chars(cs));
    is_ascii_chars_encode_utf8(cs);
    assert(encode_utf8(cs) =~= b);
    encode_utf8_valid_utf8(cs);
    encode_utf8_decode_utf8(cs);
}

/// An index preceded only by ASCII bytes is a character boundary.
pub proof fn lemma_ascii_run_boundary(bytes: Seq<u8>, i: int)
    requires
        valid_utf8(bytes),
        0 <= i <= bytes.len(),
        forall|j: int| 0 <= j < i ==> bytes[j] < 0x80,
    ensures
        vstd::utf8::is_char_boundary(bytes, i),
    decreases i,
{
    if i > 0 {
        assert(bytes.len() > 0);
        assert(vstd::utf8::valid_first_scalar(bytes));
        assert(vstd::utf8::is_leading_byte_width_1(bytes[0]));
        assert(vstd::utf8::length_of_first_scalar(bytes) == 1);
        let rest = vstd::utf8::pop_first_scalar(bytes);
        assert(valid_utf8(rest));
        assert(rest =~= bytes.subrange(1, bytes.len() as int));
        assert(forall|j: int| 0 <= j < i - 1 ==> rest[j] < 0x80);
        lemma_ascii_run_boundary(rest, i - 1);
        assert(vstd::utf8::is_char_boundary(bytes, i));
    }
}

/// A subrange of valid UTF-8 that starts at a boundary and ends at the
/// end or before a non-continuation byte is itself valid UTF-8.
pub proof fn lemma_valid_subrange(bytes: Seq<u8>, i: int, j: int)
    requires
        valid_utf8(bytes),
        0 <= i <= j <= bytes.len(),
        vstd::utf8::is_char_boundary(bytes, i),
        j == bytes.len() || !vstd::utf8::is_continuation_byte(bytes[j]),
    ensures
        valid_utf8(bytes.subrange(i, j)),
{
    vstd::utf8::valid_utf8_split(bytes, i);
    let tail = bytes.subrange(i, bytes.len() as int);
    if j - i == tail.len() {
        vstd::utf8::is_char_boundary_start_end_of_seq(tail);
    } else {
        assert(tail[j - i] == bytes[j]);
        vstd::utf8::is_char_boundary_iff_not_is_continuation_byte(tail, j - i);
    }
    vstd::utf8::valid_utf8_split(tail, j - i);
    assert(tail.subrange(0, j - i) =~= bytes.subrange(i, j));
}

/// Relies on `core::str::from_utf8`: it succeeds exactly on the valid
/// UTF-8 byte sequences, and the returned `&str` holds the characters
/// those bytes encode.
#[verifier::external_body]
pub fn utf8_to_str(b: &[u8]) -> (r: Option<&str>)
    ensures
        r is Some <==> valid_utf8(b@),
        r is Some ==> r.unwrap()@ == decode_utf8(b@),
{
    core::str::from_utf8(b).ok()
}

/// Decodes an ASCII byte sequence into an owned string.
pub fn ascii_to_string(v: &[u8]) -> (s: String)
    requires
        all_ascii(v@),
    ensures
        s@ == chars_of_ascii(v@),
{
    proof {
        lemma_ascii_bytes(v@);
    }
    let r = utf8_to_str(v);
    r.unwrap().to_owned()
}

/// Appends all of `v` to `out`.
pub fn push_bytes(out: &mut Vec<u8>, v: &[u8])
    ensures
        final(out)@ == old(out)@ + v@,
{
    let mut k: usize = 0;
    while k < v.len()
        invariant
            k <= v@.len(),
            out@ == old(out)@ + v@.take(k as int),
        decreases v@.len() - k,
    {
        out.push(v[k]);
        proof {
            assert(v@.take(k + 1 as int) =~= v@.take(k as int).push(v@[k as int]));
        }
        k = k + 1;
    }
    proof {
        assert(v@.take(v@.len() as int) =~= v@);
    }
}

/// The decimal digits of `n` as characters.
pub open spec fn dec_chars(n: nat) -> Seq<char> {
    chars_of_ascii(dec_bytes(n))
}

/// Renders `n` in decimal.
pub fn u64_to_string(n: u64) -> (s: String)
    ensures
        s@ == dec_chars(n as nat),
{
    let v = u64_to_dec(n);
    proof {
        lemma_dec_bytes_digits(n as nat);
    }
    ascii_to_string(v.as_slice())
}

} // verus!
