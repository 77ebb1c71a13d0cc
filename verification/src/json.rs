//! The JSON values the protocol exchanges, and their canonical serialized
//! form. The value type is deliberately restricted to what the protocol
//! carries: no floating point, no negative numbers.
use crate::digits::dec_bytes;
use crate::text::push_bytes;
use crate::digits::u64_to_dec;
use vstd::prelude::*;
use vstd::utf8::encode_utf8;

verus! {

/// One JSON value.
#[derive(Debug, PartialEq, Eq)]
pub enum Json {
    Null,
    Bool(bool),
    Int(u64),
    Str(String),
    Arr(Vec<Json>),
    Obj(Vec<JsonMember>),
}

/// One key/value pair of a JSON object. Pairs keep their textual order;
/// a later pair with the same key wins on lookup.
#[derive(Debug, PartialEq, Eq)]
pub struct JsonMember {
    pub key: String,
    pub val: Json,
}

/// The mathematical shape of a JSON value.
#[verifier::ext_equal]
pub enum JsonVal {
    Null,
    Bool(bool),
    Int(u64),
    Str(Seq<char>),
    Arr(Seq<JsonVal>),
    Obj(Seq<MemberVal>),
}

#[verifier::ext_equal]
pub struct MemberVal {
    pub key: Seq<char>,
    pub val: JsonVal,
}

pub open spec fn views_of(es: Seq<Json>) -> Seq<JsonVal>
    decreases es,
{
    Seq::new(
        es.len(),
        |i: int|
            if 0 <= i < es.len() {
                json_view(es[i])
            } else {
                JsonVal::Null
            },
    )
}

pub open spec fn member_views(ms: Seq<JsonMember>) -> Seq<MemberVal>
    decreases ms,
{
    Seq::new(
        ms.len(),
        |i: int|
            if 0 <= i < ms.len() {
                MemberVal { key: ms[i].key@, val: json_view(ms[i].val) }
            } else {
                MemberVal { key: Seq::empty(), val: JsonVal::Null }
            },
    )
}

pub open spec fn json_view(v: Json) -> JsonVal
    decreases v,
{
    match v {
        Json::Null => JsonVal::Null,
        Json::Bool(b) => JsonVal::Bool(b),
        Json::Int(n) => JsonVal::Int(n),
        Json::Str(s) => JsonVal::Str(s@),
        Json::Arr(es) => JsonVal::Arr(views_of(es@)),
        Json::Obj(ms) => JsonVal::Obj(member_views(ms@)),
    }
}

impl View for Json {
    type V = JsonVal;

    open spec fn view(&self) -> JsonVal {
        json_view(*self)
    }
}

/// A byte that may stand in a serialized string: anything but an
/// unescapable control byte.
pub open spec fn str_byte_ok(b: u8) -> bool {
    b >= 0x20 || b == 0x09 || b == 0x0A || b == 0x0D
}

/// A string is serializable when its UTF-8 bytes carry no control byte
/// that the writer has no escape for.
pub open spec fn str_ok(s: Seq<char>) -> bool {
    forall|i: int| 0 <= i < encode_utf8(s).len() ==> str_byte_ok(#[trigger] encode_utf8(s)[i])
}

/// A value is serializable when every string in it is.
pub open spec fn serializable(v: JsonVal) -> bool
    decreases v, 1int, 0int,
{
    match v {
        JsonVal::Null => true,
        JsonVal::Bool(_) => true,
        JsonVal::Int(_) => true,
        JsonVal::Str(s) => str_ok(s),
        JsonVal::Arr(es) => items_ok(es, 0),
        JsonVal::Obj(ms) => members_ok(ms, 0),
    }
}

/// Every element from index `i` on is serializable.
pub open spec fn items_ok(es: Seq<JsonVal>, i: int) -> bool
    decreases es, 0int, es.len() - i,
{
    if i < 0 || i >= es.len() {
        true
    } else {
        serializable(es[i]) && items_ok(es, i + 1)
    }
}

/// Every member from index `i` on has a serializable key and value.
pub open spec fn members_ok(ms: Seq<MemberVal>, i: int) -> bool
    decreases ms, 0int, ms.len() - i,
{
    if i < 0 || i >= ms.len() {
        true
    } else {
        str_ok(ms[i].key) && serializable(ms[i].val) && members_ok(ms, i + 1)
    }
}

/// A string of printable ASCII is always serializable.
pub proof fn lemma_ascii_str_ok(s: Seq<char>)
    requires
        forall|i: int| 0 <= i < s.len() ==> ' ' <= #[trigger] s[i] <= '\u{7f}',
    ensures
        str_ok(s),
{
    assert(vstd::utf8::is_ascii_chars(s));
    vstd::utf8::is_ascii_chars_encode_utf8(s);
    assert forall|i: int| 0 <= i < encode_utf8(s).len() implies str_byte_ok(
        #[trigger] encode_utf8(s)[i],
    ) by {
        assert(encode_utf8(s)[i] == s[i] as u8);
    }
}

/// How one byte of string content is written: the five standard escapes,
/// every other byte as itself.
pub open spec fn esc_byte(b: u8) -> Seq<u8> {
    if b == 0x22 {
        seq![0x5Cu8, 0x22u8]
    } else if b == 0x5C {
        seq![0x5Cu8, 0x5Cu8]
    } else if b == 0x0A {
        seq![0x5Cu8, 0x6Eu8]
    } else if b == 0x0D {
        seq![0x5Cu8, 0x72u8]
    } else if b == 0x09 {
        seq![0x5Cu8, 0x74u8]
    } else {
        seq![b]
    }
}

/// The written form of a string's UTF-8 content bytes.
pub open spec fn ser_str_bytes(bs: Seq<u8>) -> Seq<u8>
    decreases bs.len(),
{
    if bs.len() == 0 {
        Seq::empty()
    } else {
        esc_byte(bs[0]) + ser_str_bytes(bs.drop_first())
    }
}

pub proof fn lemma_ser_str_snoc(bs: Seq<u8>, b: u8)
    ensures
        ser_str_bytes(bs.push(b)) == ser_str_bytes(bs) + esc_byte(b),
    decreases bs.len(),
{
    if bs.len() == 0 {
        let p = bs.push(b);
        assert(p[0] == b);
        assert(p.drop_first() =~= Seq::<u8>::empty());
        assert(ser_str_bytes(p) == esc_byte(b) + ser_str_bytes(Seq::<u8>::empty()));
        assert(ser_str_bytes(Seq::<u8>::empty()) =~= Seq::<u8>::empty());
        assert(ser_str_bytes(p) =~= ser_str_bytes(bs) + esc_byte(b));
    } else {
        assert(bs.push(b).drop_first() =~= bs.drop_first().push(b));
        lemma_ser_str_snoc(bs.drop_first(), b);
        assert(ser_str_bytes(bs.push(b)) =~= ser_str_bytes(bs) + esc_byte(b));
    }
}

/// A whole string: quote, escaped content, quote.
pub open spec fn ser_string(s: Seq<char>) -> Seq<u8> {
    seq![0x22u8] + ser_str_bytes(encode_utf8(s)) + seq![0x22u8]
}

/// The canonical serialized bytes of a JSON value: no whitespace, object
/// members in their held order.
pub open spec fn ser_json(v: JsonVal) -> Seq<u8>
    decreases v, 1int, 0int,
{
    match v {
        JsonVal::Null => seq![0x6Eu8, 0x75u8, 0x6Cu8, 0x6Cu8],
        JsonVal::Bool(b) => if b {
            seq![0x74u8, 0x72u8, 0x75u8, 0x65u8]
        } else {
            seq![0x66u8, 0x61u8, 0x6Cu8, 0x73u8, 0x65u8]
        },
        JsonVal::Int(n) => dec_bytes(n as nat),
        JsonVal::Str(s) => ser_string(s),
        JsonVal::Arr(es) => seq![0x5Bu8] + ser_items(es, 0) + seq![0x5Du8],
        JsonVal::Obj(ms) => seq![0x7Bu8] + ser_members(ms, 0) + seq![0x7Du8],
    }
}

/// The elements of an array from index `i` on, comma-separated.
pub open spec fn ser_items(es: Seq<JsonVal>, i: int) -> Seq<u8>
    decreases es, 0int, es.len() - i,
{
    if i < 0 || i >= es.len() {
        Seq::empty()
    } else if i == es.len() - 1 {
        ser_json(es[i])
    } else {
        ser_json(es[i]) + seq![0x2Cu8] + ser_items(es, i + 1)
    }
}

/// The members of an object from index `i` on, comma-separated.
pub open spec fn ser_members(ms: Seq<MemberVal>, i: int) -> Seq<u8>
    decreases ms, 0int, ms.len() - i,
{
    if i < 0 || i >= ms.len() {
        Seq::empty()
    } else {
        let m = ser_string(ms[i].key) + seq![0x3Au8] + ser_json(ms[i].val);
        if i == ms.len() - 1 {
            m
        } else {
            m + seq![0x2Cu8] + ser_members(ms, i + 1)
        }
    }
}

/// Decides `str_ok` for a string.
pub fn check_str(s: &str) -> (r: bool)
    ensures
        r == str_ok(s@),
{
    let bs = s.as_bytes();
    let mut k: usize = 0;
    let mut ok: bool = true;
    while k < bs.len()
        invariant
            k <= bs@.len(),
            bs@ == encode_utf8(s@),
            ok == (forall|i: int| 0 <= i < k ==> str_byte_ok(#[trigger] bs@[i])),
        decreases bs@.len() - k,
    {
        let b = bs[k];
        if !(b >= 0x20 || b == 0x09 || b == 0x0A || b == 0x0D) {
            ok = false;
        }
        k = k + 1;
    }
    ok
}

/// Decides `serializable` for a value.
pub fn check_serializable(v: &Json) -> (r: bool)
    ensures
        r == serializable(v@),
    decreases v, 1int, 0int,
{
    match v {
        Json::Null => true,
        Json::Bool(_) => true,
        Json::Int(_) => true,
        Json::Str(s) => check_str(s.as_str()),
        Json::Arr(es) => {
            let r = check_items(es, 0);
            proof {
                assert(v@ == JsonVal::Arr(views_of(es@)));
                assert(views_of(es@).len() == es@.len());
            }
            r
        },
        Json::Obj(ms) => {
            let r = check_members(ms, 0);
            proof {
                assert(v@ == JsonVal::Obj(member_views(ms@)));
                assert(member_views(ms@).len() == ms@.len());
            }
            r
        },
    }
}

fn check_items(es: &Vec<Json>, i: usize) -> (r: bool)
    requires
        i <= es@.len(),
    ensures
        r == items_ok(views_of(es@), i as int),
    decreases es, 0int, es@.len() - i,
{
    if i == es.len() {
        true
    } else {
        let first = check_serializable(&es[i]);
        let rest = check_items(es, i + 1);
        proof {
            assert(views_of(es@)[i as int] == json_view(es@[i as int]));
        }
        first && rest
    }
}

fn check_members(ms: &Vec<JsonMember>, i: usize) -> (r: bool)
    requires
        i <= ms@.len(),
    ensures
        r == members_ok(member_views(ms@), i as int),
    decreases ms, 0int, ms@.len() - i,
{
    if i == ms.len() {
        true
    } else {
        let key_ok = check_str(ms[i].key.as_str());
        let val_ok = check_serializable(&ms[i].val);
        let rest = check_members(ms, i + 1);
        proof {
            assert(member_views(ms@)[i as int].key == ms@[i as int].key@);
            assert(member_views(ms@)[i as int].val == json_view(ms@[i as int].val));
        }
        key_ok && val_ok && rest
    }
}

/// Writes the quoted, escaped form of `s`.
fn write_string(s: &str, out: &mut Vec<u8>)
    requires
        str_ok(s@),
    ensures
        final(out)@ == old(out)@ + ser_string(s@),
{
    out.push(0x22);
    let bs = s.as_bytes();
    let mut k: usize = 0;
    while k < bs.len()
        invariant
            k <= bs@.len(),
            bs@ == encode_utf8(s@),
            str_ok(s@),
            out@ == old(out)@ + seq![0x22u8] + ser_str_bytes(bs@.take(k as int)),
        decreases bs@.len() - k,
    {
        let b = bs[k];
        if b == 0x22 {
            out.push(0x5C);
            out.push(0x22);
        } else if b == 0x5C {
            out.push(0x5C);
            out.push(0x5C);
        } else if b == 0x0A {
            out.push(0x5C);
            out.push(0x6E);
        } else if b == 0x0D {
            out.push(0x5C);
            out.push(0x72);
        } else if b == 0x09 {
            out.push(0x5C);
            out.push(0x74);
        } else {
            out.push(b);
        }
        proof {
            lemma_ser_str_snoc(bs@.take(k as int), bs@[k as int]);
            assert(bs@.take(k + 1 as int) =~= bs@.take(k as int).push(bs@[k as int]));
            assert(out@ =~= old(out)@ + seq![0x22u8] + ser_str_bytes(bs@.take(k + 1 as int)));
        }
        k = k + 1;
    }
    out.push(0x22);
    proof {
        assert(bs@.take(bs@.len() as int) =~= bs@);
        assert(out@ =~= old(out)@ + ser_string(s@));
    }
}

/// Writes the canonical form of a serializable value.
fn write_json(v: &Json, out: &mut Vec<u8>)
    requires
        serializable(json_view(*v)),
    ensures
        final(out)@ == old(out)@ + ser_json(json_view(*v)),
    decreases v, 1int, 0int,
{
    match v {
        Json::Null => {
            out.push(0x6E);
            out.push(0x75);
            out.push(0x6C);
            out.push(0x6C);
            proof {
                assert(out@ =~= old(out)@ + ser_json(json_view(*v)));
            }
        },
        Json::Bool(b) => {
            if *b {
                out.push(0x74);
                out.push(0x72);
                out.push(0x75);
                out.push(0x65);
            } else {
                out.push(0x66);
                out.push(0x61);
                out.push(0x6C);
                out.push(0x73);
                out.push(0x65);
            }
            proof {
                assert(out@ =~= old(out)@ + ser_json(json_view(*v)));
            }
        },
        Json::Int(n) => {
            let d = u64_to_dec(*n);
            push_bytes(out, d.as_slice());
        },
        Json::Str(s) => {
            write_string(s.as_str(), out);
        },
        Json::Arr(es) => {
            out.push(0x5B);
            if es.len() > 0 {
                write_items(es, 0, out);
            }
            out.push(0x5D);
            proof {
                assert(out@ =~= old(out)@ + ser_json(json_view(*v)));
            }
        },
        Json::Obj(ms) => {
            out.push(0x7B);
            if ms.len() > 0 {
                write_members(ms, 0, out);
            }
            out.push(0x7D);
            proof {
                assert(out@ =~= old(out)@ + ser_json(json_view(*v)));
            }
        },
    }
}

fn write_items(es: &Vec<Json>, i: usize, out: &mut Vec<u8>)
    requires
        i < es@.len(),
        items_ok(views_of(es@), i as int),
    ensures
        final(out)@ == old(out)@ + ser_items(views_of(es@), i as int),
    decreases es, 0int, es@.len() - i,
{
    let n = es.len();
    proof {
        assert(views_of(es@)[i as int] == json_view(es@[i as int]));
        assert(serializable(views_of(es@)[i as int]));
    }
    write_json(&es[i], out);
    if i + 1 < n {
        out.push(0x2C);
        write_items(es, i + 1, out);
        proof {
            assert(out@ =~= old(out)@ + ser_items(views_of(es@), i as int));
        }
    } else {
        proof {
            assert(out@ =~= old(out)@ + ser_items(views_of(es@), i as int));
        }
    }
}

fn write_members(ms: &Vec<JsonMember>, i: usize, out: &mut Vec<u8>)
    requires
        i < ms@.len(),
        members_ok(member_views(ms@), i as int),
    ensures
        final(out)@ == old(out)@ + ser_members(member_views(ms@), i as int),
    decreases ms, 0int, ms@.len() - i,
{
    let n = ms.len();
    proof {
        assert(member_views(ms@)[i as int].key == ms@[i as int].key@);
        assert(member_views(ms@)[i as int].val == json_view(ms@[i as int].val));
        assert(str_ok(member_views(ms@)[i as int].key));
        assert(serializable(member_views(ms@)[i as int].val));
    }
    write_string(ms[i].key.as_str(), out);
    out.push(0x3A);
    write_json(&ms[i].val, out);
    if i + 1 < n {
        out.push(0x2C);
        write_members(ms, i + 1, out);
        proof {
            assert(out@ =~= old(out)@ + ser_members(member_views(ms@), i as int));
        }
    } else {
        proof {
            assert(out@ =~= old(out)@ + ser_members(member_views(ms@), i as int));
        }
    }
}

/// The value of the last member named `key`, if any: a later duplicate
/// wins, as a later insertion into a map would.
pub open spec fn obj_get(ms: Seq<MemberVal>, key: Seq<char>) -> Option<JsonVal>
    decreases ms.len(),
{
    if ms.len() == 0 {
        None
    } else if ms.last().key == key {
        Some(ms.last().val)
    } else {
        obj_get(ms.drop_last(), key)
    }
}

/// Looks a key up among an object's members.
pub fn obj_get_x<'a>(ms: &'a Vec<JsonMember>, key: &String) -> (r: Option<&'a Json>)
    ensures
        match obj_get(member_views(ms@), key@) {
            Some(v) => r is Some && r.unwrap()@ == v,
            None => r is None,
        },
{
    let mut i: usize = ms.len();
    proof {
        assert(member_views(ms@).take(ms@.len() as int) =~= member_views(ms@));
    }
    while i > 0
        invariant
            i <= ms@.len(),
            obj_get(member_views(ms@), key@) == obj_get(member_views(ms@).take(i as int), key@),
        decreases i,
    {
        proof {
            assert(member_views(ms@).take(i as int).last() == member_views(ms@)[i - 1]);
            assert(member_views(ms@)[i - 1].key == ms@[i - 1].key@);
            assert(member_views(ms@).take(i as int).drop_last() =~= member_views(ms@).take(
                i - 1 as int,
            ));
        }
        if ms[i - 1].key.eq(key) {
            return Some(&ms[i - 1].val);
        }
        i = i - 1;
    }
    proof {
        assert(member_views(ms@).take(0) =~= Seq::<MemberVal>::empty());
    }
    None
}

/// A deep copy whose view is the same value.
#[verifier::loop_isolation(false)]
pub fn json_clone(v: &Json) -> (r: Json)
    ensures
        r@ == v@,
    decreases v, 1int, 0int,
{
    match v {
        Json::Null => Json::Null,
        Json::Bool(b) => Json::Bool(*b),
        Json::Int(n) => Json::Int(*n),
        Json::Str(s) => Json::Str(s.clone()),
        Json::Arr(es) => {
            let mut out: Vec<Json> = Vec::new();
            let mut i: usize = 0;
            while i < es.len()
                invariant
                    i <= es@.len(),
                    out@.len() == i,
                    forall|k: int| 0 <= k < i ==> json_view(#[trigger] out@[k]) == json_view(
                        es@[k],
                    ),
                decreases es@.len() - i,
            {
                let c = json_clone_at(es, i);
                out.push(c);
                i = i + 1;
            }
            proof {
                assert(views_of(out@) =~= views_of(es@));
            }
            Json::Arr(out)
        },
        Json::Obj(ms) => {
            let mut out: Vec<JsonMember> = Vec::new();
            let mut i: usize = 0;
            while i < ms.len()
                invariant
                    i <= ms@.len(),
                    out@.len() == i,
                    forall|k: int|
                        0 <= k < i ==> (#[trigger] out@[k]).key@ == ms@[k].key@ && json_view(
                            out@[k].val,
                        ) == json_view(ms@[k].val),
                decreases ms@.len() - i,
            {
                let m = JsonMember { key: ms[i].key.clone(), val: json_clone_at_member(ms, i) };
                out.push(m);
                i = i + 1;
            }
            proof {
                assert(member_views(out@) =~= member_views(ms@));
            }
            Json::Obj(out)
        },
    }
}

fn json_clone_at(es: &Vec<Json>, i: usize) -> (r: Json)
    requires
        i < es@.len(),
    ensures
        r@ == es@[i as int]@,
    decreases es, 0int, 0int,
{
    json_clone(&es[i])
}

fn json_clone_at_member(ms: &Vec<JsonMember>, i: usize) -> (r: Json)
    requires
        i < ms@.len(),
    ensures
        r@ == ms@[i as int].val@,
    decreases ms, 0int, 0int,
{
    json_clone(&ms[i].val)
}

/// Serializes a value to its canonical bytes; `None` exactly when some
/// string in it holds a control byte the format cannot carry.
pub fn to_json_bytes(v: &Json) -> (r: Option<Vec<u8>>)
    ensures
        r is Some <==> serializable(v@),
        r is Some ==> r.unwrap()@ == ser_json(v@),
{
    if check_serializable(v) {
        let mut out: Vec<u8> = Vec::new();
        write_json(v, &mut out);
        proof {
            assert(out@ =~= ser_json(v@));
        }
        Some(out)
    } else {
        None
    }
}

} // verus!
