//! The `textDocument/hover` request: its parameters and the response it
//! produces. The position is accepted but unused: the response is a
//! placeholder computed from the whole document, not a sub-range.
use crate::json::Json;
use crate::json::JsonMember;
use crate::json::JsonVal;
use crate::json::MemberVal;
use crate::json::obj_get;
use crate::json::obj_get_x;
use vstd::prelude::*;
use vstd::string::StringExecFns;

verus! {

pub struct HoverParams {
    /// The text document.
    pub text_document: TextDocumentIdentifier,
    /// The position inside the text document; read, not yet used.
    pub position: Position,
}

pub struct Position {
    /// Line position in a document (zero-based).
    pub line: u32,
    /// Character offset on a line in a document (zero-based).
    pub character: u32,
}

pub struct TextDocumentIdentifier {
    pub uri: String,
}

pub struct HoverResponse {
    contents: String,
}

/// What hover params must hold: a `textDocument` object with a string
/// `uri`, and a `position` object with numeric `line` and `character`.
pub open spec fn hover_params_spec(v: JsonVal) -> Option<(Seq<char>, u32, u32)> {
    match v {
        JsonVal::Obj(ms) => match obj_get(ms, "textDocument"@) {
            Some(JsonVal::Obj(td)) => match obj_get(td, "uri"@) {
                Some(JsonVal::Str(uri)) => match obj_get(ms, "position"@) {
                    Some(JsonVal::Obj(pos)) => match (obj_get(pos, "line"@), obj_get(
                        pos,
                        "character"@,
                    )) {
                        (Some(JsonVal::Int(l)), Some(JsonVal::Int(c))) => if l <= u32::MAX && c
                            <= u32::MAX {
                            Some((uri, l as u32, c as u32))
                        } else {
                            None
                        },
                        _ => None,
                    },
                    _ => None,
                },
                _ => None,
            },
            _ => None,
        },
        _ => None,
    }
}

/// Decodes hover params; `None` exactly when they do not fit the
/// expected shape.
pub fn hover_params_from_json(v: &Json) -> (r: Option<HoverParams>)
    ensures
        r is Some <==> hover_params_spec(v@) is Some,
        r is Some ==> r.unwrap().text_document.uri@ == hover_params_spec(v@).unwrap().0,
{
    let ms = match v {
        Json::Obj(ms) => ms,
        _ => {
            return None;
        },
    };
    let tdk = String::from_str("textDocument");
    let td = match obj_get_x(ms, &tdk) {
        Some(Json::Obj(td)) => td,
        _ => {
            return None;
        },
    };
    let uk = String::from_str("uri");
    let uri = match obj_get_x(td, &uk) {
        Some(Json::Str(s)) => s.clone(),
        _ => {
            return None;
        },
    };
    let pk = String::from_str("position");
    let pos = match obj_get_x(ms, &pk) {
        Some(Json::Obj(pos)) => pos,
        _ => {
            return None;
        },
    };
    let lk = String::from_str("line");
    let line = match obj_get_x(pos, &lk) {
        Some(Json::Int(n)) => {
            if *n <= u32::MAX as u64 {
                *n as u32
            } else {
                return None;
            }
        },
        _ => {
            return None;
        },
    };
    let ck = String::from_str("character");
    let character = match obj_get_x(pos, &ck) {
        Some(Json::Int(n)) => {
            if *n <= u32::MAX as u64 {
                *n as u32
            } else {
                return None;
            }
        },
        _ => {
            return None;
        },
    };
    Some(
        HoverParams {
            text_document: TextDocumentIdentifier { uri },
            position: Position { line, character },
        },
    )
}

/// The JSON a hover response carries: one `contents` string.
pub open spec fn hover_response_json(contents: Seq<char>) -> JsonVal {
    JsonVal::Obj(seq![(MemberVal { key: "contents"@, val: JsonVal::Str(contents) })])
}

impl HoverResponse {
    /// The JSON this response serializes to.
    pub closed spec fn wire(&self) -> JsonVal {
        hover_response_json(self.contents@)
    }

    pub fn new(contents: String) -> (r: HoverResponse)
        ensures
            r.wire() == hover_response_json(contents@),
    {
        HoverResponse { contents }
    }

    /// Builds the JSON to put on the wire.
    pub fn to_json(&self) -> (j: Json)
        ensures
            j@ == self.wire(),
    {
        let mut ms: Vec<JsonMember> = Vec::new();
        ms.push(
            JsonMember { key: String::from_str("contents"), val: Json::Str(self.contents.clone()) },
        );
        proof {
            let ws = (match self.wire() {
                JsonVal::Obj(x) => x,
                _ => Seq::<MemberVal>::empty(),
            });
            assert(crate::json::member_views(ms@)[0] == ws[0]);
            assert(crate::json::member_views(ms@) =~= ws);
        }
        Json::Obj(ms)
    }
}

} // verus!
