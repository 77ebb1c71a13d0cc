//! The wire codec: `Content-Length: <n>\r\n\r\n<body>` framing over raw
//! bytes. Splitting never consumes bytes it has not fully validated, and
//! an incomplete frame is ordinary mid-stream state, not an error.
use crate::digits::dec_bytes;
use crate::digits::dec_val;
use crate::digits::is_digit;
use crate::digits::lemma_dec_val_monotone;
use crate::errors::DecodeError;
use crate::errors::EncodeError;
use crate::json::Json;
use crate::json::ser_json;
use crate::json::serializable;
use crate::json::to_json_bytes;
use crate::parse::is_ws;
use crate::parse::parse_json;
use crate::parse::parse_json_x;
use crate::parse::skip_ws;
use crate::parse::skip_ws_x;
use crate::text::lemma_ascii_run_boundary;
use crate::text::lemma_valid_subrange;
use crate::text::push_bytes;
use crate::digits::u64_to_dec;
use crate::text::utf8_to_str;
use vstd::prelude::*;
use vstd::slice::slice_subrange;
use vstd::utf8::decode_utf8;
use vstd::utf8::valid_utf8;

verus! {

/// The raw shape of one request on the wire, before any dispatch.
pub struct Request {
    pub jsonrpc: String,
    pub id: u32,
    pub method: String,
    pub params: Json,
}

/// The bytes of the header delimiter, `\r\n\r\n`.
pub open spec fn delim() -> Seq<u8> {
    seq![13u8, 10u8, 13u8, 10u8]
}

/// The byte at position `i` of the header prefix.
pub open spec fn prefix_byte(i: int) -> u8 {
    if i == 0 {
        0x43
    } else if i == 1 {
        0x6F
    } else if i == 2 {
        0x6E
    } else if i == 3 {
        0x74
    } else if i == 4 {
        0x65
    } else if i == 5 {
        0x6E
    } else if i == 6 {
        0x74
    } else if i == 7 {
        0x2D
    } else if i == 8 {
        0x4C
    } else if i == 9 {
        0x65
    } else if i == 10 {
        0x6E
    } else if i == 11 {
        0x67
    } else if i == 12 {
        0x74
    } else if i == 13 {
        0x68
    } else if i == 14 {
        0x3A
    } else {
        0x20
    }
}

/// The bytes of the header prefix, `Content-Length: `.
pub open spec fn prefix() -> Seq<u8> {
    Seq::new(16, |i: int| prefix_byte(i))
}

fn prefix_vec() -> (v: Vec<u8>)
    ensures
        v@ == prefix(),
{
    let mut v: Vec<u8> = Vec::new();
    v.push(0x43);
    v.push(0x6F);
    v.push(0x6E);
    v.push(0x74);
    v.push(0x65);
    v.push(0x6E);
    v.push(0x74);
    v.push(0x2D);
    v.push(0x4C);
    v.push(0x65);
    v.push(0x6E);
    v.push(0x67);
    v.push(0x74);
    v.push(0x68);
    v.push(0x3A);
    v.push(0x20);
    proof {
        assert(v@ =~= prefix());
    }
    v
}

pub open spec fn is_delim_at(s: Seq<u8>, i: int) -> bool {
    0 <= i && i + 4 <= s.len() && s[i] == 13 && s[i + 1] == 10 && s[i + 2] == 13 && s[i + 3] == 10
}

pub open spec fn first_delim_from(s: Seq<u8>, i: int) -> Option<int>
    decreases s.len() - i,
{
    if i < 0 || i + 4 > s.len() {
        None
    } else if is_delim_at(s, i) {
        Some(i)
    } else {
        first_delim_from(s, i + 1)
    }
}

/// Index of the first `\r\n\r\n` in `s`, if any.
pub open spec fn first_delim(s: Seq<u8>) -> Option<int> {
    first_delim_from(s, 0)
}

pub proof fn lemma_first_delim_from(s: Seq<u8>, i: int)
    requires
        0 <= i,
    ensures
        match first_delim_from(s, i) {
            Some(h) => i <= h && h + 4 <= s.len() && is_delim_at(s, h) && (forall|j: int|
                i <= j < h ==> !is_delim_at(s, j)),
            None => forall|j: int| i <= j ==> !is_delim_at(s, j),
        },
    decreases s.len() - i,
{
    if i + 4 > s.len() {
    } else if is_delim_at(s, i) {
    } else {
        lemma_first_delim_from(s, i + 1);
    }
}

/// A delimiter found in a buffer is still the first one after more bytes
/// arrive.
pub proof fn lemma_first_delim_extend(s: Seq<u8>, t: Seq<u8>, i: int)
    requires
        0 <= i,
        first_delim_from(s, i) is Some,
    ensures
        first_delim_from(s + t, i) == first_delim_from(s, i),
    decreases s.len() - i,
{
    assert((s + t).len() == s.len() + t.len());
    assert(forall|j: int| 0 <= j < s.len() ==> (s + t)[j] == s[j]);
    if is_delim_at(s, i) {
        assert(is_delim_at(s + t, i));
    } else {
        assert(first_delim_from(s, i + 1) is Some);
        lemma_first_delim_extend(s, t, i + 1);
        assert(!is_delim_at(s + t, i)) by {
            if is_delim_at(s + t, i) {
                assert(i + 4 <= s.len());
            }
        }
    }
}

/// Last index at or before `j` with no whitespace just before it.
pub open spec fn trim_end(s: Seq<u8>, j: int) -> int
    decreases j,
{
    if 0 < j <= s.len() && is_ws(s[j - 1]) {
        trim_end(s, j - 1)
    } else {
        j
    }
}

/// All digits in `s[a..b)`.
pub open spec fn all_digits(s: Seq<u8>, a: int, b: int) -> bool {
    forall|k: int| a <= k < b ==> is_digit(#[trigger] s[k])
}

/// What a decoded header says, checked in order: UTF-8, then the prefix,
/// then the length field (an optional `+`, then decimal digits, with
/// ASCII whitespace allowed around them).
pub enum HeaderShape {
    BadUtf8,
    BadPrefix,
    BadLength { field_start: int, field_end: int },
    Length { content_length: nat },
}

pub open spec fn header_shape(hdr: Seq<u8>) -> HeaderShape {
    if !valid_utf8(hdr) {
        HeaderShape::BadUtf8
    } else if !(hdr.len() >= 16 && hdr.subrange(0, 16) == prefix()) {
        HeaderShape::BadPrefix
    } else {
        let a0 = skip_ws(hdr, 16);
        let b0 = trim_end(hdr, hdr.len() as int);
        let b = if b0 < a0 {
            a0
        } else {
            b0
        };
        let a = if a0 < b && hdr[a0] == 0x2B {
            a0 + 1
        } else {
            a0
        };
        if a < b && all_digits(hdr, a, b) && dec_val(hdr, a, b) <= usize::MAX as nat {
            HeaderShape::Length { content_length: dec_val(hdr, a, b) }
        } else {
            HeaderShape::BadLength { field_start: a0, field_end: b }
        }
    }
}

/// What a whole buffer holds: no frame yet, one malformed header, or one
/// complete frame.
pub enum FrameShape {
    NoDelim,
    BadUtf8 { header_end: int },
    BadPrefix { header_end: int },
    BadLength { header_end: int, field_start: int, field_end: int },
    NeedBody { header_end: int, content_length: nat },
    Frame { header_end: int, content_length: nat },
}

pub open spec fn frame_shape(s: Seq<u8>) -> FrameShape {
    match first_delim(s) {
        None => FrameShape::NoDelim,
        Some(h) => match header_shape(s.subrange(0, h)) {
            HeaderShape::BadUtf8 => FrameShape::BadUtf8 { header_end: h },
            HeaderShape::BadPrefix => FrameShape::BadPrefix { header_end: h },
            HeaderShape::BadLength { field_start, field_end } => FrameShape::BadLength {
                header_end: h,
                field_start,
                field_end,
            },
            HeaderShape::Length { content_length } => {
                if s.len() - (h + 4) < content_length {
                    FrameShape::NeedBody { header_end: h, content_length }
                } else {
                    FrameShape::Frame { header_end: h, content_length }
                }
            },
        },
    }
}

/// The framed form of a message body: header, delimiter, body, with
/// `Content-Length` counting the body's bytes.
pub open spec fn frame_bytes(body: Seq<u8>) -> Seq<u8> {
    prefix() + dec_bytes(body.len() as nat) + delim() + body
}

/// Relies on `memchr::memmem::find`: it returns the index of the first
/// occurrence of the needle (here the four delimiter bytes) in the
/// haystack, or `None` when there is none.
#[verifier::external_body]
fn find_delim_x(data: &[u8]) -> (r: Option<usize>)
    ensures
        match r {
            Some(h) => first_delim(data@) == Some(h as int),
            None => first_delim(data@) is None,
        },
{
    memchr::memmem::find(data, b"\r\n\r\n")
}

fn trim_end_x(s: &[u8], j: usize) -> (b: usize)
    requires
        j <= s@.len(),
    ensures
        b as int == trim_end(s@, j as int),
        b <= j,
{
    let mut b: usize = j;
    while b > 0 && (s[b - 1] == 0x20 || s[b - 1] == 0x09 || s[b - 1] == 0x0A || s[b - 1] == 0x0D)
        invariant
            b <= j <= s@.len(),
            trim_end(s@, j as int) == trim_end(s@, b as int),
        decreases b,
    {
        b = b - 1;
    }
    b
}

fn has_prefix_x(hdr: &[u8]) -> (r: bool)
    ensures
        r == (hdr@.len() >= 16 && hdr@.subrange(0, 16) == prefix()),
{
    if hdr.len() < 16 {
        return false;
    }
    let p = prefix_vec();
    let mut k: usize = 0;
    let mut ok: bool = true;
    while k < 16
        invariant
            k <= 16,
            p@ == prefix(),
            hdr@.len() >= 16,
            ok == (forall|i: int| 0 <= i < k ==> hdr@[i] == prefix()[i]),
        decreases 16 - k,
    {
        if hdr[k] != p[k] {
            ok = false;
        }
        k = k + 1;
    }
    proof {
        if ok {
            assert(hdr@.subrange(0, 16) =~= prefix());
        } else {
            assert(hdr@.subrange(0, 16) != prefix()) by {
                if hdr@.subrange(0, 16) == prefix() {
                    assert(forall|i: int| 0 <= i < 16 ==> hdr@[i] == #[trigger] hdr@.subrange(
                        0,
                        16,
                    )[i]);
                }
            }
        }
    }
    ok
}

/// Reads the length field digits `hdr[a..b)` as a `usize`.
fn parse_len(hdr: &[u8], a: usize, b: usize) -> (r: Option<usize>)
    requires
        a <= b <= hdr@.len(),
    ensures
        r is Some ==> a < b && all_digits(hdr@, a as int, b as int) && dec_val(
            hdr@,
            a as int,
            b as int,
        ) <= usize::MAX as nat && r.unwrap() as nat == dec_val(hdr@, a as int, b as int),
        r is None ==> !(a < b && all_digits(hdr@, a as int, b as int) && dec_val(
            hdr@,
            a as int,
            b as int,
        ) <= usize::MAX as nat),
{
    if a >= b {
        return None;
    }
    let mut k: usize = a;
    let mut acc: usize = 0;
    while k < b
        invariant
            a <= k <= b <= hdr@.len(),
            all_digits(hdr@, a as int, k as int),
            acc as nat == dec_val(hdr@, a as int, k as int),
        decreases b - k,
    {
        let c = hdr[k];
        if !(c >= 0x30 && c <= 0x39) {
            assert(!all_digits(hdr@, a as int, b as int));
            return None;
        }
        let d: usize = (c - 0x30) as usize;
        if acc > (usize::MAX - d) / 10 {
            proof {
                let m = (usize::MAX - d) as int;
                vstd::arithmetic::div_mod::lemma_fundamental_div_mod(m, 10);
                assert(acc as int * 10 + d as int > usize::MAX as int);
                assert(dec_val(hdr@, a as int, k + 1 as int) > usize::MAX as nat);
                lemma_dec_val_monotone(hdr@, a as int, k + 1 as int, b as int);
            }
            return None;
        }
        proof {
            let m = (usize::MAX - d) as int;
            vstd::arithmetic::div_mod::lemma_fundamental_div_mod(m, 10);
            assert(acc as int * 10 + d as int <= usize::MAX as int);
        }
        acc = acc * 10 + d;
        k = k + 1;
    }
    Some(acc)
}

/// Checks a header's text and extracts the declared body length.
fn check_header(hdr: &[u8]) -> (r: Result<usize, DecodeError>)
    ensures
        match header_shape(hdr@) {
            HeaderShape::BadUtf8 => r == Err::<usize, DecodeError>(DecodeError::HeaderNotUtf8),
            HeaderShape::BadPrefix => match r {
                Err(DecodeError::MissingPrefix { found }) => found@ == decode_utf8(hdr@),
                _ => false,
            },
            HeaderShape::BadLength { field_start, field_end } => match r {
                Err(DecodeError::InvalidLengthField { field }) => field@ == decode_utf8(
                    hdr@.subrange(field_start, field_end),
                ),
                _ => false,
            },
            HeaderShape::Length { content_length } => r == Ok::<usize, DecodeError>(
                (content_length as usize),
            ),
        },
{
    let hs = match utf8_to_str(hdr) {
        Some(x) => x,
        None => {
            return Err(DecodeError::HeaderNotUtf8);
        },
    };
    if !has_prefix_x(hdr) {
        return Err(DecodeError::MissingPrefix { found: hs.to_owned() });
    }
    let a0 = skip_ws_x(hdr, 16);
    let b0 = trim_end_x(hdr, hdr.len());
    let b = if b0 < a0 {
        a0
    } else {
        b0
    };
    let a = if a0 < b && hdr[a0] == 0x2B {
        a0 + 1
    } else {
        a0
    };
    match parse_len(hdr, a, b) {
        Some(n) => Ok(n),
        None => {
            proof {
                assert(hdr@.subrange(0, 16) == prefix());
                assert forall|j: int| 0 <= j < 16 implies hdr@[j] < 0x80 by {
                    assert(hdr@[j] == hdr@.subrange(0, 16)[j]);
                    assert(prefix()[j] == prefix_byte(j));
                }
                crate::parse::lemma_skip_ws_range(hdr@, 16, a0 as int);
                assert(forall|j: int| 0 <= j < a0 ==> hdr@[j] < 0x80);
                if a0 == b {
                    assert(hdr@.subrange(a0 as int, b as int) =~= Seq::<u8>::empty());
                    assert(valid_utf8(Seq::<u8>::empty()));
                } else {
                    lemma_ascii_run_boundary(hdr@, a0 as int);
                    lemma_trim_end_range(hdr@, hdr@.len() as int, b0 as int);
                    lemma_valid_subrange(hdr@, a0 as int, b as int);
                }
            }
            let fb = slice_subrange(hdr, a0, b);
            let fs = utf8_to_str(fb);
            Err(DecodeError::InvalidLengthField { field: fs.unwrap().to_owned() })
        },
    }
}

proof fn lemma_trim_end_range(s: Seq<u8>, j: int, b: int)
    requires
        0 <= j <= s.len(),
        b == trim_end(s, j),
    ensures
        0 <= b <= j,
        forall|k: int| b <= k < j ==> is_ws(#[trigger] s[k]),
    decreases j,
{
    if 0 < j && is_ws(s[j - 1]) {
        lemma_trim_end_range(s, j - 1, b);
    }
}

/// What one splitting step reports: a complete frame (`consumed` bytes,
/// body at `body_start..consumed`), a need for more bytes, or a malformed
/// header.
pub enum SplitResult {
    Complete { consumed: usize, body_start: usize },
    Incomplete,
    Malformed { error: DecodeError },
}

/// The relation `split_frame` guarantees between a buffer and its result.
pub open spec fn split_frame_post(s: Seq<u8>, r: SplitResult) -> bool {
    match frame_shape(s) {
        FrameShape::NoDelim => r == SplitResult::Incomplete,
        FrameShape::NeedBody { .. } => r == SplitResult::Incomplete,
        FrameShape::BadUtf8 { .. } => r == (SplitResult::Malformed {
            error: DecodeError::HeaderNotUtf8,
        }),
        FrameShape::BadPrefix { header_end } => match r {
            SplitResult::Malformed { error: DecodeError::MissingPrefix { found } } => found@
                == decode_utf8(s.subrange(0, header_end)),
            _ => false,
        },
        FrameShape::BadLength { header_end, field_start, field_end } => match r {
            SplitResult::Malformed { error: DecodeError::InvalidLengthField { field } } => field@
                == decode_utf8(s.subrange(0, header_end).subrange(field_start, field_end)),
            _ => false,
        },
        FrameShape::Frame { header_end, content_length } => match r {
            SplitResult::Complete { consumed, body_start } => consumed == header_end + 4
                + content_length && body_start == header_end + 4,
            _ => false,
        },
    }
}

/// Splits one complete frame off the front of `data`, or reports that
/// more bytes are needed or that the header is malformed. Callers advance
/// the buffer only by the exact `consumed` count.
pub fn split_frame(data: &[u8]) -> (r: SplitResult)
    ensures
        split_frame_post(data@, r),
{
    let h = match find_delim_x(data) {
        Some(h) => h,
        None => {
            return SplitResult::Incomplete;
        },
    };
    proof {
        lemma_first_delim_from(data@, 0);
    }
    let hdr = slice_subrange(data, 0, h);
    let n = match check_header(hdr) {
        Ok(n) => n,
        Err(error) => {
            return SplitResult::Malformed { error };
        },
    };
    if data.len() - (h + 4) < n {
        SplitResult::Incomplete
    } else {
        SplitResult::Complete { consumed: h + 4 + n, body_start: h + 4 }
    }
}

/// The relation `decode_message` guarantees between a buffer and its
/// result: every malformed input maps to exactly one error, and a
/// complete frame whose body is well-formed JSON maps to that value.
pub open spec fn decode_post(s: Seq<u8>, r: Result<Json, DecodeError>) -> bool {
    match frame_shape(s) {
        FrameShape::NoDelim => r == Err::<Json, DecodeError>(DecodeError::MissingDelimiter),
        FrameShape::BadUtf8 { .. } => r == Err::<Json, DecodeError>(DecodeError::HeaderNotUtf8),
        FrameShape::BadPrefix { header_end } => match r {
            Err(DecodeError::MissingPrefix { found }) => found@ == decode_utf8(
                s.subrange(0, header_end),
            ),
            _ => false,
        },
        FrameShape::BadLength { header_end, field_start, field_end } => match r {
            Err(DecodeError::InvalidLengthField { field }) => field@ == decode_utf8(
                s.subrange(0, header_end).subrange(field_start, field_end),
            ),
            _ => false,
        },
        FrameShape::NeedBody { header_end, content_length } => match r {
            Err(DecodeError::IncompleteBody { expected, found }) => expected == content_length
                && found == s.len() - (header_end + 4),
            _ => false,
        },
        FrameShape::Frame { header_end, content_length } => {
            let body = s.subrange(header_end + 4, header_end + 4 + content_length);
            match parse_json(body) {
                Some(v) => match r {
                    Ok(j) => j@ == v,
                    _ => false,
                },
                None => r == Err::<Json, DecodeError>(DecodeError::Json),
            }
        },
    }
}

/// Decodes one message from a buffer that should hold one complete frame.
pub fn decode_message(buf: &[u8]) -> (r: Result<Json, DecodeError>)
    ensures
        decode_post(buf@, r),
{
    let h = match find_delim_x(buf) {
        Some(h) => h,
        None => {
            return Err(DecodeError::MissingDelimiter);
        },
    };
    proof {
        lemma_first_delim_from(buf@, 0);
    }
    let hdr = slice_subrange(buf, 0, h);
    let n = match check_header(hdr) {
        Ok(n) => n,
        Err(error) => {
            return Err(error);
        },
    };
    let avail = buf.len() - (h + 4);
    if avail < n {
        return Err(DecodeError::IncompleteBody { expected: n, found: avail });
    }
    let body = slice_subrange(buf, h + 4, h + 4 + n);
    match parse_json_x(body) {
        Some(v) => Ok(v),
        None => Err(DecodeError::Json),
    }
}

/// Frames one message: the canonical JSON bytes behind a header whose
/// `Content-Length` counts those bytes. `None` exactly when the value is
/// not serializable.
pub fn encode_message(msg: &Json) -> (r: Option<Vec<u8>>)
    ensures
        r is Some <==> serializable(msg@),
        r is Some ==> r.unwrap()@ == frame_bytes(ser_json(msg@)),
{
    match to_json_bytes(msg) {
        None => None,
        Some(body) => {
            let mut out = prefix_vec();
            let d = u64_to_dec(body.len() as u64);
            push_bytes(&mut out, d.as_slice());
            out.push(13);
            out.push(10);
            out.push(13);
            out.push(10);
            push_bytes(&mut out, body.as_slice());
            proof {
                assert(out@ =~= frame_bytes(ser_json(msg@)));
            }
            Some(out)
        },
    }
}

/// The stream adapter: accumulates bytes, splits frames off the front,
/// and frames outgoing messages. On a malformed header it discards the
/// whole buffer (the resync policy): input that arrives afterwards starts
/// clean, and one bad header never corrupts frames that follow it.
pub struct MessageCodec;

impl MessageCodec {
    /// One decoding step over the accumulated buffer.
    pub fn decode(&mut self, src: &mut Vec<u8>) -> (r: Result<Option<Vec<u8>>, DecodeError>)
        ensures
            match frame_shape(old(src)@) {
                FrameShape::NoDelim => r == Ok::<Option<Vec<u8>>, DecodeError>(None) && final(src)@
                    == old(src)@,
                FrameShape::NeedBody { .. } => r == Ok::<Option<Vec<u8>>, DecodeError>(None)
                    && final(src)@ == old(src)@,
                FrameShape::Frame { header_end, content_length } => match r {
                    Ok(Some(f)) => f@ == old(src)@.subrange(0, header_end + 4 + content_length)
                        && final(src)@ == old(src)@.subrange(
                        header_end + 4 + content_length,
                        old(src)@.len() as int,
                    ),
                    _ => false,
                },
                _ => (match r {
                    Err(e) => split_frame_post(
                        old(src)@,
                        SplitResult::Malformed { error: e },
                    ) && final(src)@.len() == 0,
                    _ => false,
                }),
            },
    {
        let sr = split_frame(src.as_slice());
        match sr {
            SplitResult::Incomplete => Ok(None),
            SplitResult::Malformed { error } => {
                src.clear();
                Err(error)
            },
            SplitResult::Complete { consumed, body_start: _ } => {
                let mut rest = src.split_off(consumed);
                core::mem::swap(&mut rest, src);
                Ok(Some(rest))
            },
        }
    }

    /// Frames one outgoing message onto `dst`.
    pub fn encode(&mut self, item: &Json, dst: &mut Vec<u8>) -> (r: Result<(), EncodeError>)
        ensures
            serializable(item@) ==> r == Ok::<(), EncodeError>(()) && final(dst)@ == old(dst)@
                + frame_bytes(ser_json(item@)),
            !serializable(item@) ==> r == Err::<(), EncodeError>(EncodeError::Unserializable)
                && final(dst)@ == old(dst)@,
    {
        match encode_message(item) {
            Some(bytes) => {
                push_bytes(dst, bytes.as_slice());
                Ok(())
            },
            None => Err(EncodeError::Unserializable),
        }
    }
}

/// A buffer that stops mid-body stays incomplete until the missing bytes
/// arrive; the frame is then found at the same place, with the same
/// declared length, so the body equals what one unfragmented delivery
/// would have produced.
pub proof fn lemma_frame_extension(s: Seq<u8>, t: Seq<u8>, h: int, n: nat)
    requires
        frame_shape(s) == (FrameShape::NeedBody { header_end: h, content_length: n }),
    ensures
        s.len() + t.len() < h + 4 + n ==> frame_shape(s + t) == (FrameShape::NeedBody {
            header_end: h,
            content_length: n,
        }),
        s.len() + t.len() >= h + 4 + n ==> frame_shape(s + t) == (FrameShape::Frame {
            header_end: h,
            content_length: n,
        }),
{
    match first_delim(s) {
        None => {
            assert(false);
        },
        Some(h0) => {
            assert(h0 == h);
            lemma_first_delim_from(s, 0);
            lemma_first_delim_extend(s, t, 0);
            assert((s + t).subrange(0, h) =~= s.subrange(0, h));
        },
    }
}

} // verus!
