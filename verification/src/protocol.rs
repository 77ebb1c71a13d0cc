//! The message envelope: the method/id/params shape common to requests
//! and notifications. Classification is two-phase: a body is first read
//! as generic JSON, then sorted by the presence of its `id` field —
//! present means a request (a response is expected), absent means a
//! notification.
use crate::json::Json;
use crate::json::JsonMember;
use crate::json::JsonVal;
use crate::json::MemberVal;
use crate::json::json_clone;
use crate::json::obj_get;
use crate::json::obj_get_x;
use vstd::prelude::*;
use vstd::string::StringExecFns;

verus! {

/// One decoded incoming message, already classified.
pub enum Incoming {
    Request(Request),
    Notification(Notification),
}

/// A message that carries an `id` and expects exactly one response.
pub struct Request {
    pub jsonrpc: String,
    pub id: u32,
    pub method: String,
    pub params: Json,
}

/// A message without an `id`; no response is expected.
pub struct Notification {
    pub jsonrpc: String,
    pub method: String,
    pub params: Json,
}

/// Why a JSON body is neither a request nor a notification.
#[derive(Debug, PartialEq, Eq)]
pub enum EnvelopeError {
    /// The body is not a JSON object.
    NotObject,
    /// The `jsonrpc` field is missing or not a string.
    MissingVersion,
    /// The `method` field is missing or not a string.
    BadMethod,
    /// The `params` field is missing.
    MissingParams,
    /// The `id` field is present but not a number a `u32` can hold.
    BadId,
}

impl EnvelopeError {
    /// A human-readable account of the error.
    pub fn message(&self) -> (s: String)
        ensures
            s@ == (match *self {
                EnvelopeError::NotObject => "message body is not a JSON object"@,
                EnvelopeError::MissingVersion => "message has no jsonrpc version string"@,
                EnvelopeError::BadMethod => "message has no method string"@,
                EnvelopeError::MissingParams => "message has no params field"@,
                EnvelopeError::BadId => "message id is not an unsigned 32-bit number"@,
            }),
    {
        match self {
            EnvelopeError::NotObject => String::from_str("message body is not a JSON object"),
            EnvelopeError::MissingVersion => String::from_str(
                "message has no jsonrpc version string",
            ),
            EnvelopeError::BadMethod => String::from_str("message has no method string"),
            EnvelopeError::MissingParams => String::from_str("message has no params field"),
            EnvelopeError::BadId => String::from_str("message id is not an unsigned 32-bit number"),
        }
    }
}

/// The classification of a JSON body.
pub enum Envelope {
    Request { id: u32, method: Seq<char>, params: JsonVal },
    Notification { method: Seq<char>, params: JsonVal },
    Invalid { error: EnvelopeError },
}

/// How a JSON body is classified: it must be an object with `jsonrpc`,
/// `method` and `params`; an `id` that fits a `u32` makes it a request,
/// no `id` makes it a notification.
pub open spec fn envelope_of(v: JsonVal) -> Envelope {
    match v {
        JsonVal::Obj(ms) => {
            if !(obj_get(ms, "jsonrpc"@) matches Some(JsonVal::Str(_))) {
                Envelope::Invalid { error: EnvelopeError::MissingVersion }
            } else {
                match obj_get(ms, "method"@) {
                    Some(JsonVal::Str(method)) => match obj_get(ms, "params"@) {
                        Some(params) => match obj_get(ms, "id"@) {
                            None => Envelope::Notification { method, params },
                            Some(JsonVal::Int(n)) => if n <= u32::MAX {
                                Envelope::Request { id: n as u32, method, params }
                            } else {
                                Envelope::Invalid { error: EnvelopeError::BadId }
                            },
                            Some(_) => Envelope::Invalid { error: EnvelopeError::BadId },
                        },
                        None => Envelope::Invalid { error: EnvelopeError::MissingParams },
                    },
                    _ => Envelope::Invalid { error: EnvelopeError::BadMethod },
                }
            }
        },
        _ => Envelope::Invalid { error: EnvelopeError::NotObject },
    }
}

/// Classifies a decoded body as a request or a notification.
pub fn classify(v: &Json) -> (r: Result<Incoming, EnvelopeError>)
    ensures
        match envelope_of(v@) {
            Envelope::Request { id, method, params } => match r {
                Ok(Incoming::Request(q)) => q.id == id && q.method@ == method && q.params@
                    == params,
                _ => false,
            },
            Envelope::Notification { method, params } => match r {
                Ok(Incoming::Notification(n)) => n.method@ == method && n.params@ == params,
                _ => false,
            },
            Envelope::Invalid { error } => r == Err::<Incoming, EnvelopeError>(error),
        },
{
    let ms = match v {
        Json::Obj(ms) => ms,
        _ => {
            return Err(EnvelopeError::NotObject);
        },
    };
    let jk = String::from_str("jsonrpc");
    let jsonrpc = match obj_get_x(ms, &jk) {
        Some(Json::Str(s)) => s.clone(),
        _ => {
            return Err(EnvelopeError::MissingVersion);
        },
    };
    let mk = String::from_str("method");
    let method = match obj_get_x(ms, &mk) {
        Some(Json::Str(s)) => s.clone(),
        _ => {
            return Err(EnvelopeError::BadMethod);
        },
    };
    let pk = String::from_str("params");
    let params = match obj_get_x(ms, &pk) {
        Some(p) => json_clone(p),
        None => {
            return Err(EnvelopeError::MissingParams);
        },
    };
    let ik = String::from_str("id");
    match obj_get_x(ms, &ik) {
        None => Ok(Incoming::Notification(Notification { jsonrpc, method, params })),
        Some(Json::Int(n)) => {
            if *n <= u32::MAX as u64 {
                Ok(Incoming::Request(Request { jsonrpc, id: *n as u32, method, params }))
            } else {
                Err(EnvelopeError::BadId)
            }
        },
        Some(_) => Err(EnvelopeError::BadId),
    }
}

/// A numeric error code of the protocol; defined for wire compatibility.
/// Under this server's policy an unrecognized or malformed request gets
/// no response at all, so no response ever carries it.
pub enum ErrorCode {
    ParseError,
}

impl ErrorCode {
    /// The numeric code this variant stands for on the wire.
    pub fn code(&self) -> (c: i64)
        ensures
            c == -32700,
    {
        -32700
    }
}

/// The JSON a response carries: version, the request's id, the result,
/// and a null error.
pub open spec fn response_json(id: u32, result: JsonVal) -> JsonVal {
    JsonVal::Obj(
        seq![
            (MemberVal { key: "jsonrpc"@, val: JsonVal::Str("2.0"@) }),
            (MemberVal { key: "id"@, val: JsonVal::Int(id as u64) }),
            (MemberVal { key: "result"@, val: result }),
            (MemberVal { key: "error"@, val: JsonVal::Null }),
        ],
    )
}

/// One outgoing response. Exactly one of `result`/`error` is populated;
/// under this server's policy that is always `result`.
pub struct Response {
    jsonrpc: String,
    id: u32,
    result: Option<Json>,
    error: Option<ErrorCode>,
}

impl Response {
    /// The JSON this response serializes to.
    pub closed spec fn wire(&self) -> JsonVal {
        response_json(
            self.id,
            match self.result {
                Some(r) => r@,
                None => JsonVal::Null,
            },
        )
    }

    pub fn new(id: u32, result: Json) -> (r: Response)
        ensures
            r.wire() == response_json(id, result@),
    {
        Response { jsonrpc: String::from_str("2.0"), id, result: Some(result), error: None }
    }

    /// Builds the JSON to put on the wire.
    pub fn to_json(&self) -> (j: Json)
        ensures
            j@ == self.wire(),
    {
        let mut ms: Vec<JsonMember> = Vec::new();
        ms.push(
            JsonMember { key: String::from_str("jsonrpc"), val: Json::Str(String::from_str("2.0")) },
        );
        ms.push(JsonMember { key: String::from_str("id"), val: Json::Int(self.id as u64) });
        let result = match &self.result {
            Some(r) => json_clone(r),
            None => Json::Null,
        };
        ms.push(JsonMember { key: String::from_str("result"), val: result });
        ms.push(JsonMember { key: String::from_str("error"), val: Json::Null });
        proof {
            let ws = (match self.wire() {
                JsonVal::Obj(x) => x,
                _ => Seq::<MemberVal>::empty(),
            });
            let mv = crate::json::member_views(ms@);
            assert(mv[0] == ws[0]);
            assert(mv[1] == ws[1]);
            assert(mv[2] == ws[2]);
            assert(mv[3] == ws[3]);
            assert(mv =~= ws);
        }
        Json::Obj(ms)
    }
}

/// The view of an optional string.
pub open spec fn opt_str_view(o: Option<String>) -> Option<Seq<char>> {
    match o {
        Some(s) => Some(s@),
        None => None,
    }
}

} // verus!
