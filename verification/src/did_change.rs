//! The `textDocument/didChange` notification: full-text sync only, so
//! each change event replaces the whole document and the last event wins.
use crate::json::Json;
use crate::json::JsonVal;
use crate::json::obj_get;
use crate::json::obj_get_x;
use vstd::prelude::*;
use vstd::string::StringExecFns;

verus! {

pub struct DidChangeTextDocumentParams {
    pub text_document: VersionedTextDocumentIdentifier,
    pub content_changes: Vec<TextDocumentContentChangeEvent>,
}

pub struct VersionedTextDocumentIdentifier {
    pub uri: String,
    pub version: u32,
}

pub struct TextDocumentContentChangeEvent {
    pub text: String,
}

/// The texts of a sequence of change events, each an object with a
/// string `text`.
pub open spec fn change_texts(es: Seq<JsonVal>) -> Option<Seq<Seq<char>>>
    decreases es.len(),
{
    if es.len() == 0 {
        Some(Seq::empty())
    } else {
        match change_texts(es.drop_last()) {
            Some(pre) => match es.last() {
                JsonVal::Obj(m) => match obj_get(m, "text"@) {
                    Some(JsonVal::Str(t)) => Some(pre.push(t)),
                    _ => None,
                },
                _ => None,
            },
            None => None,
        }
    }
}

/// What didChange params must hold: a `textDocument` object with a
/// string `uri` and numeric `version`, and `contentChanges`, an array of
/// change events in order.
pub open spec fn did_change_params_spec(v: JsonVal) -> Option<(Seq<char>, Seq<Seq<char>>)> {
    match v {
        JsonVal::Obj(ms) => match obj_get(ms, "textDocument"@) {
            Some(JsonVal::Obj(td)) => match (obj_get(td, "uri"@), obj_get(td, "version"@)) {
                (Some(JsonVal::Str(uri)), Some(JsonVal::Int(ver))) => if ver <= u32::MAX {
                    match obj_get(ms, "contentChanges"@) {
                        Some(JsonVal::Arr(es)) => match change_texts(es) {
                            Some(texts) => Some((uri, texts)),
                            None => None,
                        },
                        _ => None,
                    }
                } else {
                    None
                },
                _ => None,
            },
            _ => None,
        },
        _ => None,
    }
}

/// Decodes didChange params; `None` exactly when they do not fit the
/// expected shape.
#[verifier::loop_isolation(false)]
pub fn did_change_params_from_json(v: &Json) -> (r: Option<DidChangeTextDocumentParams>)
    ensures
        r is Some <==> did_change_params_spec(v@) is Some,
        r is Some ==> {
            let p = r.unwrap();
            let s = did_change_params_spec(v@).unwrap();
            p.text_document.uri@ == s.0 && p.content_changes@.len() == s.1.len() && (forall|i: int|
                0 <= i < s.1.len() ==> (#[trigger] p.content_changes@[i]).text@ == s.1[i])
        },
{
    let ms = match v {
        Json::Obj(ms) => ms,
        _ => {
            return None;
        },
    };
    let tdk = String::from_str("textDocument");
    let td = match obj_get_x(ms, &tdk) {
        Some(Json::Obj(td)) => td,
        _ => {
            return None;
        },
    };
    let uk = String::from_str("uri");
    let uri = match obj_get_x(td, &uk) {
        Some(Json::Str(s)) => s.clone(),
        _ => {
            return None;
        },
    };
    let vk = String::from_str("version");
    let version = match obj_get_x(td, &vk) {
        Some(Json::Int(n)) => {
            if *n <= u32::MAX as u64 {
                *n as u32
            } else {
                return None;
            }
        },
        _ => {
            return None;
        },
    };
    let ck = String::from_str("contentChanges");
    let es = match obj_get_x(ms, &ck) {
        Some(Json::Arr(es)) => es,
        _ => {
            return None;
        },
    };
    let ghost evs = crate::json::views_of(es@);
    let mut changes: Vec<TextDocumentContentChangeEvent> = Vec::new();
    let mut i: usize = 0;
    let tk = String::from_str("text");
    while i < es.len()
        invariant
            i <= es@.len(),
            evs == crate::json::views_of(es@),
            tk@ == "text"@,
            change_texts(evs.take(i as int)) matches Some(pre) && pre.len() == changes@.len() && (
            forall|k: int|
                0 <= k < changes@.len() ==> (#[trigger] changes@[k]).text@ == pre[k]),
        decreases es@.len() - i,
    {
        let m = match &es[i] {
            Json::Obj(m) => m,
            _ => {
                proof {
                    lemma_change_texts_bad(evs, i as int);
                }
                return None;
            },
        };
        let text = match obj_get_x(m, &tk) {
            Some(Json::Str(s)) => s.clone(),
            _ => {
                proof {
                    lemma_change_texts_bad(evs, i as int);
                }
                return None;
            },
        };
        changes.push(TextDocumentContentChangeEvent { text });
        proof {
            assert(evs.take(i + 1 as int).drop_last() =~= evs.take(i as int));
            assert(evs.take(i + 1 as int).last() == evs[i as int]);
        }
        i = i + 1;
    }
    proof {
        assert(evs.take(es@.len() as int) =~= evs);
    }
    Some(
        DidChangeTextDocumentParams {
            text_document: VersionedTextDocumentIdentifier { uri, version },
            content_changes: changes,
        },
    )
}

/// An event that does not fit the shape poisons the whole sequence.
proof fn lemma_change_texts_bad(es: Seq<JsonVal>, i: int)
    requires
        0 <= i < es.len(),
        !(es[i] matches JsonVal::Obj(m) && obj_get(m, "text"@) matches Some(JsonVal::Str(_))),
    ensures
        change_texts(es) is None,
    decreases es.len(),
{
    if es.len() > 0 {
        if i == es.len() - 1 {
            assert(es.last() == es[i]);
        } else {
            lemma_change_texts_bad(es.drop_last(), i);
        }
    }
}

} // verus!
