//! Method dispatch: one decoded message is routed by its method name to a
//! typed parameter decode and a handler against the document store. A
//! parameter decode failure or an unrecognized method is recoverable: the
//! message is dropped with a warning and the session continues. Handlers
//! return any response as framed bytes and their log entries as data; the
//! caller performs the writing and the logging.
use crate::codec::decode_message;
use crate::codec::encode_message;
use crate::codec::frame_bytes;
use crate::codec::frame_shape;
use crate::codec::FrameShape;
use crate::did_change::did_change_params_from_json;
use crate::did_change::did_change_params_spec;
use crate::did_open::did_open_params_from_json;
use crate::did_open::did_open_params_spec;
use crate::hover::hover_params_from_json;
use crate::hover::hover_params_spec;
use crate::initialize::init_result_json;
use crate::initialize::initialize_params_from_json;
use crate::initialize::initialize_params_spec;
use crate::initialize::InitializeResult;
use crate::json::ser_json;
use crate::json::serializable;
use crate::json::str_ok;
use crate::json::JsonVal;
use crate::parse::parse_json;
use crate::protocol::envelope_of;
use crate::protocol::classify;
use crate::protocol::response_json;
use crate::protocol::Envelope;
use crate::protocol::Incoming;
use crate::protocol::Notification;
use crate::protocol::Request;
use crate::protocol::Response;
use crate::state::hover_result;
use crate::state::State;
use vstd::prelude::*;
use vstd::string::StringExecFns;

verus! {

/// How important a log entry is.
pub enum LogLevel {
    Info,
    Warn,
}

/// One log entry a handler produced; the caller hands it to its sink.
pub struct LogEntry {
    pub level: LogLevel,
    pub message: String,
}

/// What handling one message produced: at most one framed response to
/// write, and the log entries observed on the way.
pub struct Outcome {
    pub response: Option<Vec<u8>>,
    pub logs: Vec<LogEntry>,
}

/// Some entry is a warning.
pub open spec fn warned(logs: Seq<LogEntry>) -> bool {
    exists|i: int| 0 <= i < logs.len() && logs[i].level is Warn
}

/// The response a request must get: `initialize` answers with the fixed
/// result, `textDocument/hover` answers from the store, anything else —
/// an unrecognized method or parameters of the wrong shape — gets none.
pub open spec fn request_response(
    docs: Map<Seq<char>, Seq<char>>,
    id: u32,
    method: Seq<char>,
    params: JsonVal,
) -> Option<JsonVal> {
    if method == "initialize"@ {
        if initialize_params_spec(params) is Some {
            Some(response_json(id, init_result_json()))
        } else {
            None
        }
    } else if method == "textDocument/hover"@ {
        match hover_params_spec(params) {
            Some(hp) => Some(response_json(id, hover_result(docs, hp.0))),
            None => None,
        }
    } else {
        None
    }
}

/// The store a notification leaves behind: `didOpen` inserts, `didChange`
/// replays its change events in order so the last text wins, anything
/// else leaves the store alone.
pub open spec fn notification_effect(
    docs: Map<Seq<char>, Seq<char>>,
    method: Seq<char>,
    params: JsonVal,
) -> Map<Seq<char>, Seq<char>> {
    if method == "textDocument/didOpen"@ {
        match did_open_params_spec(params) {
            Some(p) => docs.insert(p.0, p.3),
            None => docs,
        }
    } else if method == "textDocument/didChange"@ {
        match did_change_params_spec(params) {
            Some(p) => if p.1.len() == 0 {
                docs
            } else {
                docs.insert(p.0, p.1.last())
            },
            None => docs,
        }
    } else {
        docs
    }
}

/// The fixed `initialize` response can always be serialized.
pub proof fn lemma_init_response_serializable(id: u32)
    ensures
        serializable(response_json(id, init_result_json())),
{
    reveal_with_fuel(crate::json::serializable, 4);
    reveal_with_fuel(crate::json::members_ok, 8);
    reveal_strlit("jsonrpc");
    reveal_strlit("2.0");
    reveal_strlit("id");
    reveal_strlit("result");
    reveal_strlit("error");
    reveal_strlit("capabilities");
    reveal_strlit("textDocumentSync");
    reveal_strlit("hoverProvider");
    reveal_strlit("serverInfo");
    reveal_strlit("name");
    reveal_strlit("toy-lsp");
    reveal_strlit("version");
    reveal_strlit("0.1.0");
    crate::json::lemma_ascii_str_ok("jsonrpc"@);
    crate::json::lemma_ascii_str_ok("2.0"@);
    crate::json::lemma_ascii_str_ok("id"@);
    crate::json::lemma_ascii_str_ok("result"@);
    crate::json::lemma_ascii_str_ok("error"@);
    crate::json::lemma_ascii_str_ok("capabilities"@);
    crate::json::lemma_ascii_str_ok("textDocumentSync"@);
    crate::json::lemma_ascii_str_ok("hoverProvider"@);
    crate::json::lemma_ascii_str_ok("serverInfo"@);
    crate::json::lemma_ascii_str_ok("name"@);
    crate::json::lemma_ascii_str_ok("toy-lsp"@);
    crate::json::lemma_ascii_str_ok("version"@);
    crate::json::lemma_ascii_str_ok("0.1.0"@);
    assert(serializable(crate::initialize::capabilities_json(1, true)));
    assert(serializable(crate::initialize::server_info_json("toy-lsp"@, "0.1.0"@)));
    assert(serializable(init_result_json()));
    let ms = (match response_json(id, init_result_json()) {
        JsonVal::Obj(x) => x,
        _ => Seq::empty(),
    });
    assert(ms.len() == 4);
    assert(crate::json::members_ok(ms, 4));
    assert(str_ok(ms[3].key) && serializable(ms[3].val));
    assert(crate::json::members_ok(ms, 3));
    assert(str_ok(ms[2].key) && serializable(ms[2].val));
    assert(crate::json::members_ok(ms, 2));
    assert(str_ok(ms[1].key) && serializable(ms[1].val));
    assert(crate::json::members_ok(ms, 1));
    assert(str_ok(ms[0].key) && serializable(ms[0].val));
    assert(crate::json::members_ok(ms, 0));
    assert(serializable(response_json(id, init_result_json())));
}

fn info(message: String) -> (e: LogEntry)
    ensures
        e.level is Info,
{
    LogEntry { level: LogLevel::Info, message }
}

fn warn(message: String) -> (e: LogEntry)
    ensures
        e.level is Warn,
{
    LogEntry { level: LogLevel::Warn, message }
}

/// Handles one request: never mutates the store, and produces exactly
/// the response `request_response` requires — unless that response is
/// unserializable, in which case it is dropped with a warning rather
/// than aborting the session.
pub fn handle_request(request: Request, state: &mut State) -> (outcome: Outcome)
    ensures
        final(state)@ == old(state)@,
        match request_response(old(state)@, request.id, request.method@, request.params@) {
            Some(rj) => if serializable(rj) {
                match outcome.response {
                    Some(b) => b@ == frame_bytes(ser_json(rj)),
                    None => false,
                }
            } else {
                outcome.response is None && warned(outcome.logs@)
            },
            None => outcome.response is None && warned(outcome.logs@),
        },
        match hover_params_spec(request.params@) {
            Some(hp) => (request.method@ == "textDocument/hover"@ && !old(state)@.contains_key(
                hp.0,
            )) ==> warned(outcome.logs@),
            None => true,
        },
        (request.method@ == "initialize"@ && initialize_params_spec(request.params@) is Some)
            ==> outcome.response is Some,
{
    proof {
        reveal_strlit("initialize");
        reveal_strlit("textDocument/hover");
    }
    let mut logs: Vec<LogEntry> = Vec::new();
    let mut m = String::from_str("received request with method: ");
    m.append(request.method.as_str());
    logs.push(info(m));
    let init_m = String::from_str("initialize");
    let hover_m = String::from_str("textDocument/hover");
    if request.method.eq(&init_m) {
        match initialize_params_from_json(&request.params) {
            Some(_) => {
                proof {
                    lemma_init_response_serializable(request.id);
                }
                let result = InitializeResult::new();
                let resp = Response::new(request.id, result.to_json());
                match encode_message(&resp.to_json()) {
                    Some(bytes) => Outcome { response: Some(bytes), logs },
                    None => {
                        logs.push(
                            warn(String::from_str("could not serialize initialize response")),
                        );
                        proof {
                            assert(logs@[logs@.len() - 1].level is Warn);
                        }
                        Outcome { response: None, logs }
                    },
                }
            },
            None => {
                logs.push(warn(String::from_str("failed to parse initialize request params")));
                proof {
                    assert(logs@[logs@.len() - 1].level is Warn);
                }
                Outcome { response: None, logs }
            },
        }
    } else if request.method.eq(&hover_m) {
        match hover_params_from_json(&request.params) {
            Some(hp) => {
                if !state.has_document(&hp.text_document.uri) {
                    let mut w = String::from_str("did not find uri: ");
                    w.append(hp.text_document.uri.as_str());
                    logs.push(warn(w));
                    proof {
                        assert(logs@[logs@.len() - 1].level is Warn);
                    }
                }
                let ghost mark = logs@;
                let hr = state.hover(hp);
                let resp = Response::new(request.id, hr.to_json());
                match encode_message(&resp.to_json()) {
                    Some(bytes) => Outcome { response: Some(bytes), logs },
                    None => {
                        logs.push(warn(String::from_str("could not serialize hover response")));
                        proof {
                            assert(logs@[logs@.len() - 1].level is Warn);
                            assert(warned(mark) ==> warned(logs@)) by {
                                if warned(mark) {
                                    let i = choose|i: int| 0 <= i < mark.len() && mark[i].level is Warn;
                                    assert(logs@[i].level is Warn);
                                }
                            }
                        }
                        Outcome { response: None, logs }
                    },
                }
            },
            None => {
                logs.push(warn(String::from_str("failed to parse hover request params")));
                proof {
                    assert(logs@[logs@.len() - 1].level is Warn);
                }
                Outcome { response: None, logs }
            },
        }
    } else {
        let mut w = String::from_str("request type not recognized: ");
        w.append(request.method.as_str());
        logs.push(warn(w));
        proof {
            assert(logs@[logs@.len() - 1].level is Warn);
        }
        Outcome { response: None, logs }
    }
}

/// Handles one notification: the store changes exactly as
/// `notification_effect` requires; parameters of the wrong shape or an
/// unrecognized method leave it alone, with a warning.
#[verifier::loop_isolation(false)]
pub fn handle_notification(notification: Notification, state: &mut State) -> (logs: Vec<LogEntry>)
    ensures
        final(state)@ == notification_effect(
            old(state)@,
            notification.method@,
            notification.params@,
        ),
        (notification.method@ == "textDocument/didOpen"@ && did_open_params_spec(
            notification.params@,
        ) is None) ==> warned(logs@),
        (notification.method@ == "textDocument/didChange"@ && did_change_params_spec(
            notification.params@,
        ) is None) ==> warned(logs@),
        (notification.method@ != "textDocument/didOpen"@ && notification.method@
            != "textDocument/didChange"@ && notification.method@ != "initialized"@) ==> warned(
            logs@,
        ),
{
    proof {
        reveal_strlit("textDocument/didOpen");
        reveal_strlit("textDocument/didChange");
        reveal_strlit("initialized");
        assert("textDocument/didOpen"@.len() == 20);
        assert("textDocument/didChange"@.len() == 22);
        assert("initialized"@.len() == 11);
        assert("textDocument/didOpen"@ != "textDocument/didChange"@);
        assert("initialized"@ != "textDocument/didChange"@);
        assert("initialized"@ != "textDocument/didOpen"@);
    }
    let mut logs: Vec<LogEntry> = Vec::new();
    let open_m = String::from_str("textDocument/didOpen");
    let change_m = String::from_str("textDocument/didChange");
    let init_m = String::from_str("initialized");
    if notification.method.eq(&open_m) {
        match did_open_params_from_json(&notification.params) {
            Some(p) => {
                logs.push(info(String::from_str("opened document")));
                state.open_document(p.text_document.uri, p.text_document.text);
                proof {
                    assert(state@ == notification_effect(
                        old(state)@,
                        notification.method@,
                        notification.params@,
                    ));
                }
            },
            None => {
                logs.push(
                    warn(String::from_str("failed to parse didOpen notification params")),
                );
                proof {
                    assert(logs@[logs@.len() - 1].level is Warn);
                }
            },
        }
    } else if notification.method.eq(&change_m) {
        match did_change_params_from_json(&notification.params) {
            Some(p) => {
                let ghost texts = did_change_params_spec(notification.params@).unwrap().1;
                let uri = p.text_document.uri;
                let mut i: usize = 0;
                let n = p.content_changes.len();
                while i < n
                    invariant
                        i <= n == p.content_changes@.len(),
                        p.content_changes@.len() == texts.len(),
                        forall|k: int|
                            0 <= k < texts.len() ==> (#[trigger] p.content_changes@[k]).text@
                                == texts[k],
                        uri@ == did_change_params_spec(notification.params@).unwrap().0,
                        state@ == if i == 0 {
                            old(state)@
                        } else {
                            old(state)@.insert(uri@, texts[i - 1])
                        },
                    decreases n - i,
                {
                    let text = p.content_changes[i].text.clone();
                    state.update_document(uri.clone(), text);
                    proof {
                        if i > 0 {
                            assert(old(state)@.insert(uri@, texts[i - 1]).insert(
                                uri@,
                                texts[i as int],
                            ) =~= old(state)@.insert(uri@, texts[i as int]));
                        }
                    }
                    i = i + 1;
                }
                proof {
                    assert(state@ == notification_effect(
                        old(state)@,
                        notification.method@,
                        notification.params@,
                    ));
                }
            },
            None => {
                logs.push(
                    warn(String::from_str("failed to parse didChange notification params")),
                );
                proof {
                    assert(logs@[logs@.len() - 1].level is Warn);
                    assert(warned(logs@));
                }
            },
        }
    } else if notification.method.eq(&init_m) {
        logs.push(info(String::from_str("client reports initialization complete")));
    } else {
        let mut w = String::from_str("notification type not recognized: ");
        w.append(notification.method.as_str());
        logs.push(warn(w));
        proof {
            assert(logs@[logs@.len() - 1].level is Warn);
        }
    }
    logs
}

/// What a buffer decodes to, when it holds one complete frame whose body
/// is well-formed JSON.
pub open spec fn decoded_json(s: Seq<u8>) -> Option<JsonVal> {
    match frame_shape(s) {
        FrameShape::Frame { header_end, content_length } => parse_json(
            s.subrange(header_end + 4, header_end + 4 + content_length),
        ),
        _ => None,
    }
}

/// One full turn over one buffered frame: decode, classify, dispatch.
/// Whatever the remote peer sent, however malformed, the session
/// continues: bad input costs at most a dropped message and a warning.
pub fn handle_message(state: &mut State, buf: &[u8]) -> (outcome: Outcome)
    ensures
        match decoded_json(buf@) {
            None => outcome.response is None && final(state)@ == old(state)@
                && warned(outcome.logs@),
            Some(v) => match envelope_of(v) {
                Envelope::Request { id, method, params } => final(state)@ == old(state)@ && (
                match request_response(old(state)@, id, method, params) {
                    Some(rj) => if serializable(rj) {
                        match outcome.response {
                            Some(b) => b@ == frame_bytes(ser_json(rj)),
                            None => false,
                        }
                    } else {
                        outcome.response is None
                    },
                    None => outcome.response is None,
                }),
                Envelope::Notification { method, params } => outcome.response is None
                    && final(state)@ == notification_effect(old(state)@, method, params),
                Envelope::Invalid { .. } => outcome.response is None
                    && final(state)@ == old(state)@ && warned(outcome.logs@),
            },
        },
{
    match decode_message(buf) {
        Err(e) => {
            let mut w = String::from_str("error decoding message: ");
            let em = e.message();
            w.append(em.as_str());
            let mut logs: Vec<LogEntry> = Vec::new();
            logs.push(warn(w));
            proof {
                assert(logs@[0].level is Warn);
            }
            Outcome { response: None, logs }
        },
        Ok(v) => {
            match classify(&v) {
                Err(e) => {
                    let mut w = String::from_str("dropping message: ");
                    let em = e.message();
                    w.append(em.as_str());
                    let mut logs: Vec<LogEntry> = Vec::new();
                    logs.push(warn(w));
                    proof {
                        assert(logs@[0].level is Warn);
                    }
                    Outcome { response: None, logs }
                },
                Ok(Incoming::Request(req)) => handle_request(req, state),
                Ok(Incoming::Notification(n)) => {
                    let logs = handle_notification(n, state);
                    Outcome { response: None, logs }
                },
            }
        },
    }
}

} // verus!
