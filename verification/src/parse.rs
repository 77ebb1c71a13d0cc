//! Reading JSON text: a recursive-descent reader for the subset of JSON
//! the protocol exchanges. It accepts whitespace between tokens, the
//! standard single-character escapes in strings, and unsigned integers;
//! it rejects what the protocol never carries (fractions, exponents,
//! negative numbers, `\u` escapes).
use crate::digits::dec_val;
use crate::digits::digit_val;
use crate::digits::digits_end;
use crate::digits::is_digit;
use crate::digits::lemma_dec_val_monotone;
use crate::digits::lemma_digits_end_bounds;
use crate::json::Json;
use crate::json::JsonMember;
use crate::json::JsonVal;
use crate::json::MemberVal;
use crate::text::utf8_to_str;
use vstd::prelude::*;
use vstd::utf8::decode_utf8;
use vstd::utf8::valid_utf8;

verus! {

/// JSON insignificant whitespace.
pub open spec fn is_ws(b: u8) -> bool {
    b == 0x20 || b == 0x09 || b == 0x0A || b == 0x0D
}

/// First index at or after `i` holding no whitespace.
pub open spec fn skip_ws(s: Seq<u8>, i: int) -> int
    decreases s.len() - i,
{
    if 0 <= i < s.len() && is_ws(s[i]) {
        skip_ws(s, i + 1)
    } else {
        i
    }
}

pub proof fn lemma_skip_ws_range(s: Seq<u8>, i: int, k: int)
    requires
        0 <= i,
        k == skip_ws(s, i),
    ensures
        i <= k,
        forall|j: int| i <= j < k ==> is_ws(#[trigger] s[j]),
    decreases s.len() - i,
{
    if 0 <= i < s.len() && is_ws(s[i]) {
        lemma_skip_ws_range(s, i + 1, k);
    }
}

/// The byte an escape code stands for, if the code is recognized.
pub open spec fn unesc(b: u8) -> Option<u8> {
    if b == 0x22 {
        Some(0x22u8)
    } else if b == 0x5C {
        Some(0x5Cu8)
    } else if b == 0x2F {
        Some(0x2Fu8)
    } else if b == 0x6E {
        Some(0x0Au8)
    } else if b == 0x72 {
        Some(0x0Du8)
    } else if b == 0x74 {
        Some(0x09u8)
    } else if b == 0x62 {
        Some(0x08u8)
    } else if b == 0x66 {
        Some(0x0Cu8)
    } else {
        None
    }
}

/// Reads string content from `i` (just past the opening quote) up to and
/// past the closing quote; yields the unescaped content bytes and the
/// index after the closing quote.
pub open spec fn parse_str(s: Seq<u8>, i: int) -> Option<(Seq<u8>, int)>
    decreases s.len() - i,
{
    if i < 0 || i >= s.len() {
        None
    } else if s[i] == 0x22 {
        Some((Seq::empty(), i + 1))
    } else if s[i] == 0x5C {
        if i + 1 < s.len() {
            match unesc(s[i + 1]) {
                Some(u) => match parse_str(s, i + 2) {
                    Some(p) => Some((seq![u] + p.0, p.1)),
                    None => None,
                },
                None => None,
            }
        } else {
            None
        }
    } else if s[i] < 0x20 {
        None
    } else {
        match parse_str(s, i + 1) {
            Some(p) => Some((seq![s[i]] + p.0, p.1)),
            None => None,
        }
    }
}

/// Reads one JSON value starting exactly at `i`; yields the value and the
/// index just past it.
pub open spec fn parse_value(s: Seq<u8>, i: int) -> Option<(JsonVal, int)>
    decreases s.len() - i, 2int,
{
    if i < 0 || i >= s.len() {
        None
    } else {
        let b = s[i];
        if b == 0x6E {
            if s.len() - i >= 4 && s[i + 1] == 0x75 && s[i + 2] == 0x6C && s[i + 3] == 0x6C {
                Some((JsonVal::Null, i + 4))
            } else {
                None
            }
        } else if b == 0x74 {
            if s.len() - i >= 4 && s[i + 1] == 0x72 && s[i + 2] == 0x75 && s[i + 3] == 0x65 {
                Some((JsonVal::Bool(true), i + 4))
            } else {
                None
            }
        } else if b == 0x66 {
            if s.len() - i >= 5 && s[i + 1] == 0x61 && s[i + 2] == 0x6C && s[i + 3] == 0x73 && s[i
                + 4] == 0x65 {
                Some((JsonVal::Bool(false), i + 5))
            } else {
                None
            }
        } else if b == 0x22 {
            match parse_str(s, i + 1) {
                Some(p) => if valid_utf8(p.0) {
                    Some((JsonVal::Str(decode_utf8(p.0)), p.1))
                } else {
                    None
                },
                None => None,
            }
        } else if is_digit(b) {
            let j = digits_end(s, i);
            if dec_val(s, i, j) <= u64::MAX as nat {
                Some((JsonVal::Int(dec_val(s, i, j) as u64), j))
            } else {
                None
            }
        } else if b == 0x5B {
            let k = skip_ws(s, i + 1);
            if !(i + 1 <= k <= s.len()) {
                None
            } else if k < s.len() && s[k] == 0x5D {
                Some((JsonVal::Arr(Seq::empty()), k + 1))
            } else {
                match parse_items(s, k) {
                    Some(p) => Some((JsonVal::Arr(p.0), p.1)),
                    None => None,
                }
            }
        } else if b == 0x7B {
            let k = skip_ws(s, i + 1);
            if !(i + 1 <= k <= s.len()) {
                None
            } else if k < s.len() && s[k] == 0x7D {
                Some((JsonVal::Obj(Seq::empty()), k + 1))
            } else {
                match parse_members(s, k) {
                    Some(p) => Some((JsonVal::Obj(p.0), p.1)),
                    None => None,
                }
            }
        } else {
            None
        }
    }
}

/// Reads the elements of a non-empty array from `i` (just past the `[` or
/// a separating comma, whitespace skipped), up to and past the closing
/// `]`.
pub open spec fn parse_items(s: Seq<u8>, i: int) -> Option<(Seq<JsonVal>, int)>
    decreases s.len() - i, 3int,
{
    match parse_value(s, i) {
        None => None,
        Some(p) => {
            let v = p.0;
            let j = p.1;
            if !(i < j <= s.len()) {
                None
            } else {
                let k = skip_ws(s, j);
                if !(j <= k <= s.len()) {
                    None
                } else if k < s.len() && s[k] == 0x2C {
                    let k2 = skip_ws(s, k + 1);
                    if !(k + 1 <= k2 <= s.len()) {
                        None
                    } else {
                        match parse_items(s, k2) {
                            Some(q) => Some((seq![v] + q.0, q.1)),
                            None => None,
                        }
                    }
                } else if k < s.len() && s[k] == 0x5D {
                    Some((seq![v], k + 1))
                } else {
                    None
                }
            }
        },
    }
}

/// Reads the members of a non-empty object from `i` (just past the `{` or
/// a separating comma, whitespace skipped), up to and past the closing
/// `}`.
pub open spec fn parse_members(s: Seq<u8>, i: int) -> Option<(Seq<MemberVal>, int)>
    decreases s.len() - i, 3int,
{
    if !(0 <= i < s.len() && s[i] == 0x22) {
        None
    } else {
        match parse_str(s, i + 1) {
            None => None,
            Some(kp) => {
                if !(valid_utf8(kp.0) && i < kp.1 <= s.len()) {
                    None
                } else {
                    let key = decode_utf8(kp.0);
                    let c = skip_ws(s, kp.1);
                    if !(kp.1 <= c <= s.len() && c < s.len() && s[c] == 0x3A) {
                        None
                    } else {
                        let k2 = skip_ws(s, c + 1);
                        if !(c + 1 <= k2 <= s.len()) {
                            None
                        } else {
                            match parse_value(s, k2) {
                                None => None,
                                Some(p) => {
                                    let m = MemberVal { key: key, val: p.0 };
                                    let j = p.1;
                                    if !(k2 < j <= s.len()) {
                                        None
                                    } else {
                                        let k3 = skip_ws(s, j);
                                        if !(j <= k3 <= s.len()) {
                                            None
                                        } else if k3 < s.len() && s[k3] == 0x2C {
                                            let k4 = skip_ws(s, k3 + 1);
                                            if !(k3 + 1 <= k4 <= s.len()) {
                                                None
                                            } else {
                                                match parse_members(s, k4) {
                                                    Some(q) => Some((seq![m] + q.0, q.1)),
                                                    None => None,
                                                }
                                            }
                                        } else if k3 < s.len() && s[k3] == 0x7D {
                                            Some((seq![m], k3 + 1))
                                        } else {
                                            None
                                        }
                                    }
                                },
                            }
                        }
                    }
                }
            },
        }
    }
}

/// Reads a whole document: one value, with whitespace allowed around it,
/// spanning the entire input.
pub open spec fn parse_json(s: Seq<u8>) -> Option<JsonVal> {
    let i = skip_ws(s, 0);
    match parse_value(s, i) {
        Some(p) => if skip_ws(s, p.1) == s.len() {
            Some(p.0)
        } else {
            None
        },
        None => None,
    }
}

pub(crate) fn skip_ws_x(s: &[u8], i: usize) -> (k: usize)
    requires
        i <= s@.len(),
    ensures
        k as int == skip_ws(s@, i as int),
        i <= k <= s@.len(),
{
    let mut k: usize = i;
    while k < s.len() && (s[k] == 0x20 || s[k] == 0x09 || s[k] == 0x0A || s[k] == 0x0D)
        invariant
            i <= k <= s@.len(),
            skip_ws(s@, i as int) == skip_ws(s@, k as int),
        decreases s@.len() - k,
    {
        k = k + 1;
    }
    k
}

fn unesc_x(b: u8) -> (r: Option<u8>)
    ensures
        r == unesc(b),
{
    if b == 0x22 {
        Some(0x22)
    } else if b == 0x5C {
        Some(0x5C)
    } else if b == 0x2F {
        Some(0x2F)
    } else if b == 0x6E {
        Some(0x0A)
    } else if b == 0x72 {
        Some(0x0D)
    } else if b == 0x74 {
        Some(0x09)
    } else if b == 0x62 {
        Some(0x08)
    } else if b == 0x66 {
        Some(0x0C)
    } else {
        None
    }
}

fn parse_str_x(s: &[u8], i: usize) -> (r: Option<(Vec<u8>, usize)>)
    requires
        i <= s@.len(),
    ensures
        r is Some ==> {
            let p = r.unwrap();
            parse_str(s@, i as int) == Some((p.0@, p.1 as int)) && i < p.1 <= s@.len()
        },
        r is None ==> parse_str(s@, i as int) is None,
    decreases s@.len() - i,
{
    if i >= s.len() {
        return None;
    }
    let b = s[i];
    if b == 0x22 {
        let empty: Vec<u8> = Vec::new();
        proof {
            assert(empty@ =~= Seq::<u8>::empty());
        }
        Some((empty, i + 1))
    } else if b == 0x5C {
        if i + 1 < s.len() {
            match unesc_x(s[i + 1]) {
                Some(u) => {
                    match parse_str_x(s, i + 2) {
                        Some(p) => {
                            let (mut rest, j) = p;
                            rest.insert(0, u);
                            proof {
                                assert(rest@ =~= seq![u] + parse_str(
                                    s@,
                                    i + 2 as int,
                                ).unwrap().0);
                            }
                            Some((rest, j))
                        },
                        None => None,
                    }
                },
                None => None,
            }
        } else {
            None
        }
    } else if b < 0x20 {
        None
    } else {
        match parse_str_x(s, i + 1) {
            Some(p) => {
                let (mut rest, j) = p;
                rest.insert(0, b);
                proof {
                    assert(rest@ =~= seq![b] + parse_str(s@, i + 1 as int).unwrap().0);
                }
                Some((rest, j))
            },
            None => None,
        }
    }
}

/// Reads one unsigned decimal number; fails if its value exceeds `u64`.
fn parse_num_x(s: &[u8], i: usize) -> (r: Option<(u64, usize)>)
    requires
        i < s@.len(),
        is_digit(s@[i as int]),
    ensures
        r is Some ==> {
            let p = r.unwrap();
            digits_end(s@, i as int) == p.1 as int && dec_val(s@, i as int, p.1 as int) == p.0
                as nat && i < p.1 <= s@.len()
        },
        r is None ==> dec_val(s@, i as int, digits_end(s@, i as int)) > u64::MAX as nat,
{
    let mut k: usize = i;
    let mut acc: u64 = 0;
    proof {
        lemma_digits_end_bounds(s@, i as int);
    }
    while k < s.len() && s[k] >= 0x30 && s[k] <= 0x39
        invariant
            i <= k <= s@.len(),
            digits_end(s@, i as int) == digits_end(s@, k as int),
            dec_val(s@, i as int, k as int) == acc as nat,
        decreases s@.len() - k,
    {
        let d: u8 = s[k] - 0x30;
        if acc > (u64::MAX - d as u64) / 10 {
            proof {
                let m = (u64::MAX - d) as int;
                vstd::arithmetic::div_mod::lemma_fundamental_div_mod(m, 10);
                assert(acc as int * 10 + d as int > u64::MAX as int);
                assert(dec_val(s@, i as int, k + 1 as int) == acc as nat * 10 + digit_val(
                    s@[k as int],
                ));
                lemma_digits_end_bounds(s@, k as int);
                lemma_dec_val_monotone(s@, i as int, k + 1 as int, digits_end(s@, k as int));
            }
            return None;
        }
        proof {
            let m = (u64::MAX - d) as int;
            vstd::arithmetic::div_mod::lemma_fundamental_div_mod(m, 10);
            assert(acc as int * 10 + d as int <= u64::MAX as int);
        }
        acc = acc * 10 + d as u64;
        k = k + 1;
    }
    proof {
        lemma_digits_end_bounds(s@, i as int);
    }
    Some((acc, k))
}

/// Reads one JSON value starting exactly at `i`.
pub fn parse_value_x(s: &[u8], i: usize) -> (r: Option<(Json, usize)>)
    requires
        i <= s@.len(),
    ensures
        r is Some ==> {
            let p = r.unwrap();
            parse_value(s@, i as int) == Some((p.0@, p.1 as int)) && i < p.1 <= s@.len()
        },
        r is None ==> parse_value(s@, i as int) is None,
    decreases s@.len() - i, 2int,
{
    if i >= s.len() {
        return None;
    }
    let b = s[i];
    if b == 0x6E {
        if s.len() - i >= 4 && s[i + 1] == 0x75 && s[i + 2] == 0x6C && s[i + 3] == 0x6C {
            Some((Json::Null, i + 4))
        } else {
            None
        }
    } else if b == 0x74 {
        if s.len() - i >= 4 && s[i + 1] == 0x72 && s[i + 2] == 0x75 && s[i + 3] == 0x65 {
            Some((Json::Bool(true), i + 4))
        } else {
            None
        }
    } else if b == 0x66 {
        if s.len() - i >= 5 && s[i + 1] == 0x61 && s[i + 2] == 0x6C && s[i + 3] == 0x73 && s[i + 4]
            == 0x65 {
            Some((Json::Bool(false), i + 5))
        } else {
            None
        }
    } else if b == 0x22 {
        match parse_str_x(s, i + 1) {
            Some(p) => {
                let (bytes, j) = p;
                match utf8_to_str(bytes.as_slice()) {
                    Some(t) => Some((Json::Str(t.to_owned()), j)),
                    None => None,
                }
            },
            None => None,
        }
    } else if b >= 0x30 && b <= 0x39 {
        match parse_num_x(s, i) {
            Some(p) => Some((Json::Int(p.0), p.1)),
            None => None,
        }
    } else if b == 0x5B {
        let k = skip_ws_x(s, i + 1);
        if k < s.len() && s[k] == 0x5D {
            let empty: Vec<Json> = Vec::new();
            proof {
                assert(crate::json::views_of(empty@) =~= Seq::<JsonVal>::empty());
            }
            Some((Json::Arr(empty), k + 1))
        } else {
            match parse_items_x(s, k) {
                Some(p) => Some((Json::Arr(p.0), p.1)),
                None => None,
            }
        }
    } else if b == 0x7B {
        let k = skip_ws_x(s, i + 1);
        if k < s.len() && s[k] == 0x7D {
            let empty: Vec<JsonMember> = Vec::new();
            proof {
                assert(crate::json::member_views(empty@) =~= Seq::<MemberVal>::empty());
            }
            Some((Json::Obj(empty), k + 1))
        } else {
            match parse_members_x(s, k) {
                Some(p) => Some((Json::Obj(p.0), p.1)),
                None => None,
            }
        }
    } else {
        None
    }
}

fn parse_items_x(s: &[u8], i: usize) -> (r: Option<(Vec<Json>, usize)>)
    requires
        i <= s@.len(),
    ensures
        r is Some ==> {
            let p = r.unwrap();
            parse_items(s@, i as int) == Some((crate::json::views_of(p.0@), p.1 as int)) && i < p.1
                <= s@.len()
        },
        r is None ==> parse_items(s@, i as int) is None,
    decreases s@.len() - i, 3int,
{
    match parse_value_x(s, i) {
        None => None,
        Some(p) => {
            let (v, j) = p;
            let k = skip_ws_x(s, j);
            if k < s.len() && s[k] == 0x2C {
                let k2 = skip_ws_x(s, k + 1);
                match parse_items_x(s, k2) {
                    Some(q) => {
                        let (mut rest, j2) = q;
                        rest.insert(0, v);
                        proof {
                            assert(crate::json::views_of(rest@) =~= seq![
                                parse_value(s@, i as int).unwrap().0,
                            ] + parse_items(s@, k2 as int).unwrap().0);
                        }
                        Some((rest, j2))
                    },
                    None => None,
                }
            } else if k < s.len() && s[k] == 0x5D {
                let mut one: Vec<Json> = Vec::new();
                one.push(v);
                proof {
                    assert(crate::json::views_of(one@) =~= seq![
                        parse_value(s@, i as int).unwrap().0,
                    ]);
                }
                Some((one, k + 1))
            } else {
                None
            }
        },
    }
}

fn parse_members_x(s: &[u8], i: usize) -> (r: Option<(Vec<JsonMember>, usize)>)
    requires
        i <= s@.len(),
    ensures
        r is Some ==> {
            let p = r.unwrap();
            parse_members(s@, i as int) == Some((crate::json::member_views(p.0@), p.1 as int)) && i
                < p.1 <= s@.len()
        },
        r is None ==> parse_members(s@, i as int) is None,
    decreases s@.len() - i, 3int,
{
    if !(i < s.len() && s[i] == 0x22) {
        return None;
    }
    match parse_str_x(s, i + 1) {
        None => None,
        Some(kp) => {
            let (kb, j) = kp;
            let key: String = match utf8_to_str(kb.as_slice()) {
                Some(t) => t.to_owned(),
                None => {
                    return None;
                },
            };
            let c = skip_ws_x(s, j);
            if !(c < s.len() && s[c] == 0x3A) {
                return None;
            }
            let k2 = skip_ws_x(s, c + 1);
            match parse_value_x(s, k2) {
                None => None,
                Some(p) => {
                    let (v, j2) = p;
                    let m = JsonMember { key: key, val: v };
                    let k3 = skip_ws_x(s, j2);
                    if k3 < s.len() && s[k3] == 0x2C {
                        let k4 = skip_ws_x(s, k3 + 1);
                        match parse_members_x(s, k4) {
                            Some(q) => {
                                let (mut rest, j3) = q;
                                rest.insert(0, m);
                                proof {
                                    assert(crate::json::member_views(rest@) =~= seq![
                                        parse_members(s@, i as int).unwrap().0[0],
                                    ] + parse_members(s@, k4 as int).unwrap().0);
                                }
                                Some((rest, j3))
                            },
                            None => None,
                        }
                    } else if k3 < s.len() && s[k3] == 0x7D {
                        let mut one: Vec<JsonMember> = Vec::new();
                        one.push(m);
                        proof {
                            assert(crate::json::member_views(one@) =~= seq![
                                parse_members(s@, i as int).unwrap().0[0],
                            ]);
                        }
                        Some((one, k3 + 1))
                    } else {
                        None
                    }
                },
            }
        },
    }
}

/// Reads a whole document; `None` exactly when the bytes are not one
/// well-formed value of the supported subset.
pub fn parse_json_x(s: &[u8]) -> (r: Option<Json>)
    ensures
        r is Some ==> parse_json(s@) == Some(r.unwrap()@),
        r is None ==> parse_json(s@) is None,
{
    let i = skip_ws_x(s, 0);
    match parse_value_x(s, i) {
        Some(p) => {
            let (v, j) = p;
            let k = skip_ws_x(s, j);
            if k == s.len() {
                Some(v)
            } else {
                None
            }
        },
        None => None,
    }
}

} // verus!
