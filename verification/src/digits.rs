//! Decimal digit strings: the spec-level encoding of a number as ASCII
//! digits, the value of a digit run inside a byte sequence, and the
//! executable rendering of a `u64` as decimal bytes.
use vstd::prelude::*;

verus! {

/// True of the ASCII bytes `'0'` through `'9'`.
pub open spec fn is_digit(b: u8) -> bool {
    0x30 <= b <= 0x39
}

/// Numeric value of an ASCII digit byte.
pub open spec fn digit_val(b: u8) -> nat
    recommends
        is_digit(b),
{
    (b - 0x30) as nat
}

/// ASCII digit byte for a value below ten.
pub open spec fn digit_byte(d: nat) -> u8
    recommends
        d < 10,
{
    (0x30 + d) as u8
}

/// The decimal digits of `n`, most significant first, no sign, no leading
/// zeros (except for `n == 0`, which is the single byte `'0'`).
pub open spec fn dec_bytes(n: nat) -> Seq<u8>
    decreases n,
{
    if n < 10 {
        seq![digit_byte(n)]
    } else {
        dec_bytes(n / 10).push(digit_byte(n % 10))
    }
}

/// Value of the decimal digit run `s[i..j)`.
pub open spec fn dec_val(s: Seq<u8>, i: int, j: int) -> nat
    decreases j - i,
{
    if j <= i {
        0
    } else {
        dec_val(s, i, j - 1) * 10 + digit_val(s[j - 1])
    }
}

/// Index of the first byte at or after `i` that is not an ASCII digit.
pub open spec fn digits_end(s: Seq<u8>, i: int) -> int
    decreases s.len() - i,
{
    if 0 <= i < s.len() && is_digit(s[i]) {
        digits_end(s, i + 1)
    } else {
        i
    }
}

pub proof fn lemma_digits_end_bounds(s: Seq<u8>, i: int)
    requires
        0 <= i <= s.len(),
    ensures
        i <= digits_end(s, i) <= s.len(),
        forall|k: int| i <= k < digits_end(s, i) ==> is_digit(s[k]),
        digits_end(s, i) < s.len() ==> !is_digit(s[digits_end(s, i)]),
    decreases s.len() - i,
{
    if i < s.len() && is_digit(s[i]) {
        lemma_digits_end_bounds(s, i + 1);
    }
}

/// `digits_end` is pinned down by any witness run of digits.
pub proof fn lemma_digits_end_unique(s: Seq<u8>, i: int, j: int)
    requires
        0 <= i <= j <= s.len(),
        forall|k: int| i <= k < j ==> is_digit(s[k]),
        j < s.len() ==> !is_digit(s[j]),
    ensures
        digits_end(s, i) == j,
    decreases j - i,
{
    if i < j {
        assert(is_digit(s[i]));
        lemma_digits_end_unique(s, i + 1, j);
    }
}

pub proof fn lemma_dec_bytes_digits(n: nat)
    ensures
        dec_bytes(n).len() >= 1,
        forall|k: int| 0 <= k < dec_bytes(n).len() ==> is_digit(#[trigger] dec_bytes(n)[k]),
    decreases n,
{
    if n >= 10 {
        lemma_dec_bytes_digits(n / 10);
    }
}

/// Reading back the decimal digits of `n`, wherever they sit inside a
/// larger sequence, yields `n`.
pub proof fn lemma_dec_val_embedded(n: nat, s: Seq<u8>, i: int)
    requires
        0 <= i,
        i + dec_bytes(n).len() <= s.len(),
        s.subrange(i, i + dec_bytes(n).len()) == dec_bytes(n),
    ensures
        dec_val(s, i, i + dec_bytes(n).len()) == n,
    decreases n,
{
    let ds = dec_bytes(n);
    if n < 10 {
        assert(s[i] == ds[0]);
        assert(dec_val(s, i, i) == 0);
        assert(dec_val(s, i, i + 1) == digit_val(ds[0]));
    } else {
        let prev = dec_bytes(n / 10);
        assert(ds == prev.push(digit_byte(n % 10)));
        assert(s.subrange(i, i + prev.len()) =~= prev) by {
            assert(forall|k: int|
                0 <= k < prev.len() ==> s.subrange(i, i + ds.len())[k] == ds[k]);
        }
        lemma_dec_val_embedded(n / 10, s, i);
        assert(s[i + ds.len() - 1] == ds[ds.len() - 1]);
        assert(digit_val(digit_byte(n % 10)) == n % 10);
        assert(dec_val(s, i, i + ds.len()) == (n / 10) * 10 + n % 10);
        assert((n / 10) * 10 + n % 10 == n) by {
            vstd::arithmetic::div_mod::lemma_fundamental_div_mod(n as int, 10);
        }
    }
}

/// Extending a digit run to the right never shrinks its value.
pub proof fn lemma_dec_val_monotone(s: Seq<u8>, i: int, j: int, k: int)
    requires
        i <= j <= k,
    ensures
        dec_val(s, i, j) <= dec_val(s, i, k),
    decreases k - j,
{
    if j < k {
        lemma_dec_val_monotone(s, i, j, k - 1);
        assert(dec_val(s, i, k - 1) * 10 >= dec_val(s, i, k - 1)) by (nonlinear_arith);
    }
}

/// Renders `n` as its decimal ASCII digits.
pub fn u64_to_dec(n: u64) -> (v: Vec<u8>)
    ensures
        v@ == dec_bytes(n as nat),
    decreases n,
{
    if n < 10 {
        let mut v: Vec<u8> = Vec::new();
        v.push(0x30u8 + (n as u8));
        proof {
            assert(v@ =~= dec_bytes(n as nat));
        }
        v
    } else {
        let mut v = u64_to_dec(n / 10);
        v.push(0x30u8 + ((n % 10) as u8));
        proof {
            assert(v@ =~= dec_bytes(n as nat));
        }
        v
    }
}

} // verus!
