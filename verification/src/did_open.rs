//! The `textDocument/didOpen` notification: a document's uri and its full
//! text enter the store.
use crate::json::Json;
use crate::json::JsonVal;
use crate::json::obj_get;
use crate::json::obj_get_x;
use vstd::prelude::*;
use vstd::string::StringExecFns;

verus! {

pub struct DidOpenTextDocumentParams {
    pub text_document: TextDocumentItem,
}

pub struct TextDocumentItem {
    pub uri: String,
    pub language_id: String,
    pub version: u32,
    pub text: String,
}

/// What didOpen params must hold: a `textDocument` object with string
/// `uri`, `languageId` and `text`, and a numeric `version`.
pub open spec fn did_open_params_spec(v: JsonVal) -> Option<(Seq<char>, Seq<char>, u32, Seq<char>)> {
    match v {
        JsonVal::Obj(ms) => match obj_get(ms, "textDocument"@) {
            Some(JsonVal::Obj(td)) => match (obj_get(td, "uri"@), obj_get(td, "languageId"@)) {
                (Some(JsonVal::Str(uri)), Some(JsonVal::Str(lang))) => match (obj_get(
                    td,
                    "version"@,
                ), obj_get(td, "text"@)) {
                    (Some(JsonVal::Int(ver)), Some(JsonVal::Str(text))) => if ver <= u32::MAX {
                        Some((uri, lang, ver as u32, text))
                    } else {
                        None
                    },
                    _ => None,
                },
                _ => None,
            },
            _ => None,
        },
        _ => None,
    }
}

/// Decodes didOpen params; `None` exactly when they do not fit the
/// expected shape.
pub fn did_open_params_from_json(v: &Json) -> (r: Option<DidOpenTextDocumentParams>)
    ensures
        r is Some <==> did_open_params_spec(v@) is Some,
        r is Some ==> r.unwrap().text_document.uri@ == did_open_params_spec(v@).unwrap().0
            && r.unwrap().text_document.text@ == did_open_params_spec(v@).unwrap().3,
{
    let ms = match v {
        Json::Obj(ms) => ms,
        _ => {
            return None;
        },
    };
    let tdk = String::from_str("textDocument");
    let td = match obj_get_x(ms, &tdk) {
        Some(Json::Obj(td)) => td,
        _ => {
            return None;
        },
    };
    let uk = String::from_str("uri");
    let uri = match obj_get_x(td, &uk) {
        Some(Json::Str(s)) => s.clone(),
        _ => {
            return None;
        },
    };
    let lk = String::from_str("languageId");
    let language_id = match obj_get_x(td, &lk) {
        Some(Json::Str(s)) => s.clone(),
        _ => {
            return None;
        },
    };
    let vk = String::from_str("version");
    let version = match obj_get_x(td, &vk) {
        Some(Json::Int(n)) => {
            if *n <= u32::MAX as u64 {
                *n as u32
            } else {
                return None;
            }
        },
        _ => {
            return None;
        },
    };
    let xk = String::from_str("text");
    let text = match obj_get_x(td, &xk) {
        Some(Json::Str(s)) => s.clone(),
        _ => {
            return None;
        },
    };
    Some(
        DidOpenTextDocumentParams {
            text_document: TextDocumentItem { uri, language_id, version, text },
        },
    )
}

} // verus!
