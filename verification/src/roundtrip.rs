//! The codec round-trips: reading back the canonical bytes of any
//! serializable value yields a structurally equal value, both for a bare
//! JSON body and for a whole framed message.
use crate::codec::frame_bytes;
use crate::codec::frame_shape;
use crate::codec::first_delim;
use crate::codec::first_delim_from;
use crate::codec::header_shape;
use crate::codec::is_delim_at;
use crate::codec::prefix;
use crate::codec::prefix_byte;
use crate::codec::trim_end;
use crate::codec::FrameShape;
use crate::codec::HeaderShape;
use crate::digits::dec_bytes;
use crate::digits::is_digit;
use crate::digits::lemma_dec_bytes_digits;
use crate::digits::lemma_dec_val_embedded;
use crate::digits::lemma_digits_end_unique;
use crate::json::esc_byte;
use crate::json::items_ok;
use crate::json::members_ok;
use crate::json::ser_items;
use crate::json::ser_json;
use crate::json::ser_members;
use crate::json::ser_str_bytes;
use crate::json::ser_string;
use crate::json::serializable;
use crate::json::str_byte_ok;
use crate::json::str_ok;
use crate::json::JsonVal;
use crate::parse::is_ws;
use crate::parse::parse_items;
use crate::parse::parse_json;
use crate::parse::parse_members;
use crate::parse::parse_str;
use crate::parse::parse_value;
use crate::parse::skip_ws;
use crate::text::all_ascii;
use crate::text::lemma_ascii_bytes;
use vstd::prelude::*;
use vstd::utf8::encode_utf8;
use vstd::utf8::encode_utf8_decode_utf8;
use vstd::utf8::encode_utf8_valid_utf8;

verus! {

/// Bytes embedded in a larger sequence can be read off by index.
proof fn lemma_sub_index(s: Seq<u8>, i: int, x: Seq<u8>)
    requires
        0 <= i,
        i + x.len() <= s.len(),
        s.subrange(i, i + x.len()) == x,
    ensures
        forall|k: int| 0 <= k < x.len() ==> s[i + k] == x[k],
{
    assert forall|k: int| 0 <= k < x.len() implies s[i + k] == x[k] by {
        assert(x[k] == s.subrange(i, i + x.len())[k]);
    }
}

/// The first byte of a serialized value is never whitespace nor a
/// structural byte that could end or separate an enclosing form.
proof fn lemma_ser_first(v: JsonVal)
    ensures
        ser_json(v).len() > 0,
        !is_ws(ser_json(v)[0]),
        ser_json(v)[0] != 0x2C,
        ser_json(v)[0] != 0x5D,
        ser_json(v)[0] != 0x7D,
        ser_json(v)[0] != 0x3A,
{
    match v {
        JsonVal::Null => {
            assert(ser_json(v)[0] == 0x6E);
        },
        JsonVal::Bool(b) => {
            if b {
                assert(ser_json(v)[0] == 0x74);
            } else {
                assert(ser_json(v)[0] == 0x66);
            }
        },
        JsonVal::Int(n) => {
            lemma_dec_bytes_digits(n as nat);
            assert(is_digit(ser_json(v)[0]));
        },
        JsonVal::Str(cs) => {
            assert(ser_json(v)[0] == 0x22);
        },
        JsonVal::Arr(es) => {
            assert(ser_json(v)[0] == 0x5B);
        },
        JsonVal::Obj(ms) => {
            assert(ser_json(v)[0] == 0x7B);
        },
    }
}

/// String content embedded before a closing quote reads back exactly.
proof fn lemma_parse_str_embedded(bs: Seq<u8>, s: Seq<u8>, i: int)
    requires
        0 <= i,
        i + ser_str_bytes(bs).len() + 1 <= s.len(),
        forall|k: int| 0 <= k < bs.len() ==> str_byte_ok(#[trigger] bs[k]),
        s.subrange(i, i + ser_str_bytes(bs).len()) == ser_str_bytes(bs),
        s[i + ser_str_bytes(bs).len()] == 0x22,
    ensures
        parse_str(s, i) == Some((bs, i + ser_str_bytes(bs).len() + 1)),
    decreases bs.len(),
{
    let w = ser_str_bytes(bs);
    lemma_sub_index(s, i, w);
    if bs.len() == 0 {
        assert(s[i] == 0x22);
    } else {
        let b = bs[0];
        let e = esc_byte(b);
        let rest = bs.drop_first();
        let wr = ser_str_bytes(rest);
        assert(w == e + wr);
        assert(forall|k: int| 0 <= k < e.len() ==> w[k] == e[k]);
        assert(forall|k: int| 0 <= k < wr.len() ==> w[e.len() + k] == wr[k]);
        assert(forall|k: int| 0 <= k < rest.len() ==> str_byte_ok(#[trigger] rest[k])) by {
            assert(forall|k: int| 0 <= k < rest.len() ==> rest[k] == bs[k + 1]);
        }
        assert(s.subrange(i + e.len(), i + e.len() + wr.len()) =~= wr);
        assert(s[i + e.len() + wr.len()] == 0x22);
        lemma_parse_str_embedded(rest, s, i + e.len());
        if b == 0x22 || b == 0x5C || b == 0x0A || b == 0x0D || b == 0x09 {
            assert(e.len() == 2);
            assert(s[i] == 0x5C);
            assert(crate::parse::unesc(s[i + 1]) == Some(b));
            assert(seq![b] + rest =~= bs);
        } else {
            assert(e.len() == 1);
            assert(w[0] == e[0]);
            assert(s[i + 0] == w[0]);
            assert(s[i] == b);
            assert(str_byte_ok(b));
            assert(b >= 0x20 && b != 0x22 && b != 0x5C);
            assert(seq![b] + rest =~= bs);
        }
    }
}

/// A serialized value embedded in a larger sequence reads back exactly,
/// provided a serialized number is not followed by another digit.
#[verifier::rlimit(60)]
proof fn lemma_parse_value_embedded(v: JsonVal, s: Seq<u8>, i: int)
    requires
        serializable(v),
        0 <= i,
        i + ser_json(v).len() <= s.len(),
        s.subrange(i, i + ser_json(v).len()) == ser_json(v),
        v matches JsonVal::Int(_) ==> (i + ser_json(v).len() == s.len() || !is_digit(
            s[i + ser_json(v).len()],
        )),
    ensures
        parse_value(s, i) == Some((v, i + ser_json(v).len())),
    decreases v, 0int,
{
    let w = ser_json(v);
    lemma_sub_index(s, i, w);
    lemma_ser_first(v);
    match v {
        JsonVal::Null => {
            assert(s[i] == 0x6E && s[i + 1] == 0x75 && s[i + 2] == 0x6C && s[i + 3] == 0x6C);
        },
        JsonVal::Bool(b) => {
            if b {
                assert(s[i] == 0x74 && s[i + 1] == 0x72 && s[i + 2] == 0x75 && s[i + 3] == 0x65);
            } else {
                assert(s[i] == 0x66 && s[i + 1] == 0x61 && s[i + 2] == 0x6C && s[i + 3] == 0x73 && s[i
                    + 4] == 0x65);
            }
        },
        JsonVal::Int(n) => {
            lemma_dec_bytes_digits(n as nat);
            assert(forall|k: int| i <= k < i + w.len() ==> is_digit(s[k])) by {
                assert(forall|k: int| 0 <= k < w.len() ==> s[i + k] == w[k]);
                assert(forall|k: int|
                    i <= k < i + w.len() ==> s[k] == w[k - i] && is_digit(w[k - i]));
            }
            lemma_digits_end_unique(s, i, i + w.len());
            lemma_dec_val_embedded(n as nat, s, i);
            assert(is_digit(s[i]));
            assert(s[i] != 0x6E && s[i] != 0x74 && s[i] != 0x66 && s[i] != 0x22);
        },
        JsonVal::Str(cs) => {
            let bs = encode_utf8(cs);
            let wc = ser_str_bytes(bs);
            assert(s[i] == 0x22);
            assert(w == seq![0x22u8] + wc + seq![0x22u8]);
            assert(forall|k: int| 0 <= k < wc.len() ==> w[1 + k] == wc[k]);
            assert(s.subrange(i + 1, i + 1 + wc.len()) =~= wc);
            assert(s[i + 1 + wc.len()] == w[w.len() - 1]);
            assert(w[w.len() - 1] == 0x22);
            assert(forall|k: int| 0 <= k < bs.len() ==> str_byte_ok(#[trigger] bs[k])) by {
                assert(str_ok(cs));
            }
            lemma_parse_str_embedded(bs, s, i + 1);
            encode_utf8_valid_utf8(cs);
            encode_utf8_decode_utf8(cs);
        },
        JsonVal::Arr(es) => {
            assert(s[i] == 0x5B);
            if es.len() == 0 {
                assert(ser_items(es, 0) == Seq::<u8>::empty());
                assert(w =~= seq![0x5Bu8, 0x5Du8]);
                assert(s[i + 1] == w[1]);
                assert(w[1] == 0x5D);
                assert(!is_ws(s[i + 1]));
                assert(skip_ws(s, i + 1) == i + 1);
                assert(parse_value(s, i) == Some((JsonVal::Arr(Seq::empty()), i + 2)));
                assert(Seq::<JsonVal>::empty() =~= es);
            } else {
                let wi = ser_items(es, 0);
                assert(w == seq![0x5Bu8] + wi + seq![0x5Du8]);
                assert(forall|k: int| 0 <= k < wi.len() ==> w[1 + k] == wi[k]);
                assert(s.subrange(i + 1, i + 1 + wi.len()) =~= wi);
                assert(s[i + 1 + wi.len()] == w[w.len() - 1]);
                assert(w[w.len() - 1] == 0x5D);
                assert(ser_items(es, 0).len() > 0 && ser_items(es, 0)[0] == ser_json(es[0])[0]) by {
                    lemma_ser_first(es[0]);
                }
                lemma_ser_first(es[0]);
                assert(s[i + 1] == wi[0]);
                assert(!is_ws(s[i + 1]) && s[i + 1] != 0x5D);
                assert(skip_ws(s, i + 1) == i + 1);
                lemma_parse_items_embedded(es, 0, s, i + 1);
                assert(es.subrange(0, es.len() as int) =~= es);
            }
        },
        JsonVal::Obj(ms) => {
            assert(s[i] == 0x7B);
            if ms.len() == 0 {
                assert(ser_members(ms, 0) == Seq::<u8>::empty());
                assert(w =~= seq![0x7Bu8, 0x7Du8]);
                assert(s[i + 1] == w[1]);
                assert(w[1] == 0x7D);
                assert(!is_ws(s[i + 1]));
                assert(skip_ws(s, i + 1) == i + 1);
                assert(parse_value(s, i) == Some((JsonVal::Obj(Seq::empty()), i + 2)));
                assert(Seq::<crate::json::MemberVal>::empty() =~= ms);
            } else {
                let wm = ser_members(ms, 0);
                assert(w == seq![0x7Bu8] + wm + seq![0x7Du8]);
                assert(forall|k: int| 0 <= k < wm.len() ==> w[1 + k] == wm[k]);
                assert(s.subrange(i + 1, i + 1 + wm.len()) =~= wm);
                assert(s[i + 1 + wm.len()] == w[w.len() - 1]);
                assert(w[w.len() - 1] == 0x7D);
                assert(wm.len() > 0 && wm[0] == 0x22) by {
                    assert(ser_string(ms[0].key)[0] == 0x22);
                }
                assert(s[i + 1] == 0x22);
                assert(!is_ws(s[i + 1]) && s[i + 1] != 0x7D);
                assert(skip_ws(s, i + 1) == i + 1);
                lemma_parse_members_embedded(ms, 0, s, i + 1);
                assert(ms.subrange(0, ms.len() as int) =~= ms);
            }
        },
    }
}

/// Serialized array elements embedded before a closing bracket read back
/// exactly.
#[verifier::rlimit(60)]
proof fn lemma_parse_items_embedded(es: Seq<JsonVal>, idx: int, s: Seq<u8>, i: int)
    requires
        items_ok(es, idx),
        0 <= idx < es.len(),
        0 <= i,
        i + ser_items(es, idx).len() + 1 <= s.len(),
        s.subrange(i, i + ser_items(es, idx).len()) == ser_items(es, idx),
        s[i + ser_items(es, idx).len()] == 0x5D,
    ensures
        parse_items(s, i) == Some(
            (es.subrange(idx, es.len() as int), i + ser_items(es, idx).len() + 1),
        ),
    decreases es, es.len() - idx,
{
    let w = ser_items(es, idx);
    lemma_sub_index(s, i, w);
    let e0 = es[idx];
    let w0 = ser_json(e0);
    assert(serializable(e0));
    lemma_ser_first(e0);
    if idx == es.len() - 1 {
        assert(w == w0);
        lemma_parse_value_embedded(e0, s, i);
        let j = i + w0.len();
        assert(s[j] == 0x5D);
        assert(!is_ws(s[j]));
        assert(skip_ws(s, j) == j);
        assert(seq![e0] =~= es.subrange(idx, es.len() as int));
    } else {
        let wr = ser_items(es, idx + 1);
        assert(w == w0 + seq![0x2Cu8] + wr);
        assert(forall|k: int| 0 <= k < w0.len() ==> w[k] == w0[k]);
        assert(w[w0.len() as int] == 0x2C);
        assert(forall|k: int| 0 <= k < wr.len() ==> w[w0.len() + 1 + k] == wr[k]);
        assert(s.subrange(i, i + w0.len()) =~= w0);
        let j = i + w0.len();
        assert(s[j] == 0x2C);
        lemma_parse_value_embedded(e0, s, i);
        assert(!is_ws(s[j]) && s[j] != 0x5D);
        assert(skip_ws(s, j) == j);
        lemma_ser_first(es[idx + 1]);
        assert(wr.len() > 0 && wr[0] == ser_json(es[idx + 1])[0]);
        assert(s[j + 1] == wr[0]);
        assert(!is_ws(s[j + 1]));
        assert(skip_ws(s, j + 1) == j + 1);
        assert(s.subrange(j + 1, j + 1 + wr.len()) =~= wr);
        assert(s[j + 1 + wr.len()] == 0x5D);
        lemma_parse_items_embedded(es, idx + 1, s, j + 1);
        assert(seq![e0] + es.subrange(idx + 1, es.len() as int) =~= es.subrange(
            idx,
            es.len() as int,
        ));
    }
}

/// Serialized object members embedded before a closing brace read back
/// exactly.
#[verifier::rlimit(60)]
proof fn lemma_parse_members_embedded(
    ms: Seq<crate::json::MemberVal>,
    idx: int,
    s: Seq<u8>,
    i: int,
)
    requires
        members_ok(ms, idx),
        0 <= idx < ms.len(),
        0 <= i,
        i + ser_members(ms, idx).len() + 1 <= s.len(),
        s.subrange(i, i + ser_members(ms, idx).len()) == ser_members(ms, idx),
        s[i + ser_members(ms, idx).len()] == 0x7D,
    ensures
        parse_members(s, i) == Some(
            (ms.subrange(idx, ms.len() as int), i + ser_members(ms, idx).len() + 1),
        ),
    decreases ms, ms.len() - idx,
{
    let w = ser_members(ms, idx);
    lemma_sub_index(s, i, w);
    let key = ms[idx].key;
    let v0 = ms[idx].val;
    assert(str_ok(key) && serializable(v0));
    let kb = encode_utf8(key);
    let wk = ser_str_bytes(kb);
    let ks = ser_string(key);
    let w0 = ks + seq![0x3Au8] + ser_json(v0);
    assert(ks == seq![0x22u8] + wk + seq![0x22u8]);
    let m = if idx == ms.len() - 1 {
        w0
    } else {
        w0 + seq![0x2Cu8] + ser_members(ms, idx + 1)
    };
    assert(w == m);
    assert(forall|k: int| 0 <= k < w0.len() ==> w[k] == w0[k]);
    assert(forall|k: int| 0 <= k < ks.len() ==> w0[k] == ks[k]);
    // the key string
    assert(s[i] == ks[0]);
    assert(ks[0] == 0x22);
    assert(forall|k: int| 0 <= k < wk.len() ==> ks[1 + k] == wk[k]);
    assert(s.subrange(i + 1, i + 1 + wk.len()) =~= wk);
    assert(s[i + 1 + wk.len()] == ks[ks.len() - 1]);
    assert(ks[ks.len() - 1] == 0x22);
    assert(forall|k: int| 0 <= k < kb.len() ==> str_byte_ok(#[trigger] kb[k])) by {
        assert(str_ok(key));
    }
    lemma_parse_str_embedded(kb, s, i + 1);
    encode_utf8_valid_utf8(key);
    encode_utf8_decode_utf8(key);
    let jk = i + ks.len();
    // the colon
    assert(w0[ks.len() as int] == 0x3A);
    assert(s[jk] == 0x3A);
    assert(!is_ws(s[jk]));
    assert(skip_ws(s, jk - 1 + 1) == jk);
    // the value
    let wv = ser_json(v0);
    lemma_ser_first(v0);
    assert(forall|k: int| 0 <= k < wv.len() ==> w0[ks.len() + 1 + k] == wv[k]);
    assert(s[jk + 1] == wv[0]);
    assert(!is_ws(s[jk + 1]));
    assert(skip_ws(s, jk + 1) == jk + 1);
    assert(s.subrange(jk + 1, jk + 1 + wv.len()) =~= wv);
    let jv = jk + 1 + wv.len();
    if idx == ms.len() - 1 {
        assert(s[jv] == 0x7D);
        assert(!is_digit(s[jv]));
        lemma_parse_value_embedded(v0, s, jk + 1);
        assert(!is_ws(s[jv]));
        assert(skip_ws(s, jv) == jv);
        assert((crate::json::MemberVal { key: vstd::utf8::decode_utf8(kb), val: v0 }) == ms[idx]);
        assert(seq![ms[idx]] =~= ms.subrange(idx, ms.len() as int));
    } else {
        let wr = ser_members(ms, idx + 1);
        assert(w[w0.len() as int] == 0x2C);
        assert(s[jv] == 0x2C);
        assert(!is_digit(s[jv]));
        lemma_parse_value_embedded(v0, s, jk + 1);
        assert(!is_ws(s[jv]) && s[jv] != 0x7D);
        assert(skip_ws(s, jv) == jv);
        assert(forall|k: int| 0 <= k < wr.len() ==> w[w0.len() + 1 + k] == wr[k]);
        assert(ser_string(ms[idx + 1].key)[0] == 0x22);
        assert(wr.len() > 0 && wr[0] == 0x22);
        assert(s[jv + 1] == wr[0]);
        assert(!is_ws(s[jv + 1]));
        assert(skip_ws(s, jv + 1) == jv + 1);
        assert(s.subrange(jv + 1, jv + 1 + wr.len()) =~= wr);
        assert(s[jv + 1 + wr.len()] == 0x7D);
        lemma_parse_members_embedded(ms, idx + 1, s, jv + 1);
        assert((crate::json::MemberVal { key: vstd::utf8::decode_utf8(kb), val: v0 }) == ms[idx]);
        assert(seq![ms[idx]] + ms.subrange(idx + 1, ms.len() as int) =~= ms.subrange(
            idx,
            ms.len() as int,
        ));
    }
}

/// Reading back the canonical bytes of a serializable value yields the
/// same value: serialize-then-parse is the identity on serializable
/// values.
pub proof fn lemma_json_round_trip(v: JsonVal)
    requires
        serializable(v),
    ensures
        parse_json(ser_json(v)) == Some(v),
{
    let s = ser_json(v);
    lemma_ser_first(v);
    assert(skip_ws(s, 0) == 0);
    assert(s.subrange(0, s.len() as int) =~= s);
    lemma_parse_value_embedded(v, s, 0);
    assert(skip_ws(s, s.len() as int) == s.len());
}

/// Framing a serializable message and splitting the framed bytes finds
/// exactly one complete frame whose body parses back to the same value.
pub proof fn lemma_message_round_trip(v: JsonVal)
    requires
        serializable(v),
        ser_json(v).len() <= usize::MAX,
    ensures
        ({
            let s = frame_bytes(ser_json(v));
            let h = 16 + dec_bytes(ser_json(v).len() as nat).len() as int;
            frame_shape(s) == (FrameShape::Frame {
                header_end: h,
                content_length: ser_json(v).len() as nat,
            }) && s.subrange(h + 4, s.len() as int) == ser_json(v) && parse_json(
                s.subrange(h + 4, s.len() as int),
            ) == Some(v) && crate::dispatch::decoded_json(s) == Some(v)
        }),
{
    let body = ser_json(v);
    let n = body.len() as nat;
    let ds = dec_bytes(n);
    let s = frame_bytes(body);
    let h = 16 + ds.len() as int;
    lemma_dec_bytes_digits(n);
    let hdr = prefix() + ds;
    assert(s == hdr + crate::codec::delim() + body);
    assert(hdr.len() == h);
    assert(forall|k: int| 0 <= k < h ==> s[k] == hdr[k]);
    assert(s[h] == 13 && s[h + 1] == 10 && s[h + 2] == 13 && s[h + 3] == 10);
    assert(forall|k: int| 0 <= k < body.len() ==> s[h + 4 + k] == body[k]);
    // the delimiter first occurs at the end of the header
    assert(is_delim_at(s, h));
    assert(forall|k: int| 0 <= k < 16 ==> hdr[k] == prefix_byte(k)) by {
        assert(forall|k: int| 0 <= k < 16 ==> hdr[k] == prefix()[k]);
    }
    assert(forall|j: int| 0 <= j < h ==> hdr[j] != 13) by {
        assert(forall|k: int| 0 <= k < ds.len() ==> is_digit(#[trigger] ds[k]));
        assert(forall|j: int| 16 <= j < h ==> hdr[j] == ds[j - 16]);
    }
    assert(forall|j: int| 0 <= j < h ==> !is_delim_at(s, j));
    lemma_first_delim_unique(s, 0, h);
    assert(first_delim(s) == Some(h));
    // the header is ASCII, has the prefix, and its field is the length
    assert(s.subrange(0, h) =~= hdr);
    assert(all_ascii(hdr)) by {
        assert(forall|k: int| 0 <= k < ds.len() ==> is_digit(#[trigger] ds[k]));
        assert(forall|k: int| 0 <= k < 16 ==> hdr[k] == prefix_byte(k));
        assert(forall|j: int| 16 <= j < h ==> hdr[j] == ds[j - 16]);
    }
    lemma_ascii_bytes(hdr);
    assert(hdr.subrange(0, 16) =~= prefix());
    assert(is_digit(hdr[16]));
    assert(!is_ws(hdr[16]) && hdr[16] != 0x2B);
    assert(skip_ws(hdr, 16) == 16);
    assert(is_digit(hdr[h - 1]));
    assert(!is_ws(hdr[h - 1]));
    assert(trim_end(hdr, hdr.len() as int) == hdr.len());
    assert(forall|k: int| 16 <= k < h ==> is_digit(hdr[k]));
    assert(hdr.subrange(16, 16 + ds.len() as int) =~= ds);
    lemma_dec_val_embedded(n, hdr, 16);
    assert(header_shape(hdr) == (HeaderShape::Length { content_length: n }));
    assert(s.len() - (h + 4) == n);
    assert(frame_shape(s) == (FrameShape::Frame { header_end: h, content_length: n }));
    assert(s.subrange(h + 4, s.len() as int) =~= body);
    lemma_json_round_trip(v);
}

proof fn lemma_first_delim_unique(s: Seq<u8>, i: int, h: int)
    requires
        0 <= i <= h,
        is_delim_at(s, h),
        forall|j: int| i <= j < h ==> !is_delim_at(s, j),
    ensures
        first_delim_from(s, i) == Some(h),
    decreases h - i,
{
    if i < h {
        lemma_first_delim_unique(s, i + 1, h);
    }
}

} // verus!
