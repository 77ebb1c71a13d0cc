//! The `initialize` request: its parameters and the fixed result this
//! server answers with.
use crate::json::Json;
use crate::json::JsonMember;
use crate::json::JsonVal;
use crate::json::MemberVal;
use crate::json::member_views;
use crate::json::obj_get;
use crate::json::obj_get_x;
use vstd::prelude::*;
use vstd::string::StringExecFns;

verus! {

pub struct InitializeParams {
    pub client_info: ClientInfo,
}

pub struct ClientInfo {
    pub name: String,
    pub version: Option<String>,
}

/// The result of `initialize`: what this server can do, and who it is.
pub struct InitializeResult {
    capabilities: ServerCapabilities,
    server_info: ServerInfo,
}

pub struct ServerInfo {
    name: String,
    version: String,
}

pub struct ServerCapabilities {
    text_document_sync: u16,
    hover_provider: bool,
}

/// What `initialize` params must hold: a `clientInfo` object with a
/// string `name` and an optional string `version` (absent or null both
/// mean none).
pub open spec fn initialize_params_spec(v: JsonVal) -> Option<(Seq<char>, Option<Seq<char>>)> {
    match v {
        JsonVal::Obj(ms) => match obj_get(ms, "clientInfo"@) {
            Some(JsonVal::Obj(ci)) => match obj_get(ci, "name"@) {
                Some(JsonVal::Str(name)) => match obj_get(ci, "version"@) {
                    None => Some((name, None)),
                    Some(JsonVal::Null) => Some((name, None)),
                    Some(JsonVal::Str(ver)) => Some((name, Some(ver))),
                    Some(_) => None,
                },
                _ => None,
            },
            _ => None,
        },
        _ => None,
    }
}

/// Decodes `initialize` params; `None` exactly when they do not fit the
/// expected shape.
pub fn initialize_params_from_json(v: &Json) -> (r: Option<InitializeParams>)
    ensures
        r is Some <==> initialize_params_spec(v@) is Some,
        r is Some ==> r.unwrap().client_info.name@ == initialize_params_spec(v@).unwrap().0
            && crate::protocol::opt_str_view(r.unwrap().client_info.version)
            == initialize_params_spec(v@).unwrap().1,
{
    let ms = match v {
        Json::Obj(ms) => ms,
        _ => {
            return None;
        },
    };
    let cik = String::from_str("clientInfo");
    let ci = match obj_get_x(ms, &cik) {
        Some(Json::Obj(ci)) => ci,
        _ => {
            return None;
        },
    };
    let nk = String::from_str("name");
    let name = match obj_get_x(ci, &nk) {
        Some(Json::Str(s)) => s.clone(),
        _ => {
            return None;
        },
    };
    let vk = String::from_str("version");
    let version: Option<String> = match obj_get_x(ci, &vk) {
        None => None,
        Some(Json::Null) => None,
        Some(Json::Str(s)) => Some(s.clone()),
        Some(_) => {
            return None;
        },
    };
    Some(InitializeParams { client_info: ClientInfo { name, version } })
}

/// The JSON of a capabilities object.
pub open spec fn capabilities_json(sync: u16, hover: bool) -> JsonVal {
    JsonVal::Obj(
        seq![
            (MemberVal { key: "textDocumentSync"@, val: JsonVal::Int(sync as u64) }),
            (MemberVal { key: "hoverProvider"@, val: JsonVal::Bool(hover) }),
        ],
    )
}

/// The JSON of a server info object.
pub open spec fn server_info_json(name: Seq<char>, version: Seq<char>) -> JsonVal {
    JsonVal::Obj(
        seq![
            (MemberVal { key: "name"@, val: JsonVal::Str(name) }),
            (MemberVal { key: "version"@, val: JsonVal::Str(version) }),
        ],
    )
}

/// The JSON of this server's `initialize` result: full-document sync, a
/// hover provider, and the server's name and version.
pub open spec fn init_result_json() -> JsonVal {
    JsonVal::Obj(
        seq![
            (MemberVal { key: "capabilities"@, val: capabilities_json(1, true) }),
            (MemberVal { key: "serverInfo"@, val: server_info_json("toy-lsp"@, "0.1.0"@) }),
        ],
    )
}

impl InitializeResult {
    /// The JSON this result serializes to.
    pub closed spec fn wire(&self) -> JsonVal {
        JsonVal::Obj(
            seq![
                (MemberVal {
                    key: "capabilities"@,
                    val: capabilities_json(
                        self.capabilities.text_document_sync,
                        self.capabilities.hover_provider,
                    ),
                }),
                (MemberVal {
                    key: "serverInfo"@,
                    val: server_info_json(self.server_info.name@, self.server_info.version@),
                }),
            ],
        )
    }

    pub fn new() -> (r: InitializeResult)
        ensures
            r.wire() == init_result_json(),
    {
        let r = InitializeResult {
            capabilities: ServerCapabilities { text_document_sync: 1, hover_provider: true },
            server_info: ServerInfo {
                name: String::from_str("toy-lsp"),
                version: String::from_str("0.1.0"),
            },
        };
        proof {
            let ws = (match r.wire() {
                JsonVal::Obj(x) => x,
                _ => Seq::<MemberVal>::empty(),
            });
            let gs = (match init_result_json() {
                JsonVal::Obj(x) => x,
                _ => Seq::<MemberVal>::empty(),
            });
            assert(ws[0] == gs[0]);
            assert(ws[1] == gs[1]);
            assert(ws =~= gs);
        }
        r
    }

    /// Builds the JSON to put on the wire.
    pub fn to_json(&self) -> (j: Json)
        ensures
            j@ == self.wire(),
    {
        let mut caps: Vec<JsonMember> = Vec::new();
        caps.push(
            JsonMember {
                key: String::from_str("textDocumentSync"),
                val: Json::Int(self.capabilities.text_document_sync as u64),
            },
        );
        caps.push(
            JsonMember {
                key: String::from_str("hoverProvider"),
                val: Json::Bool(self.capabilities.hover_provider),
            },
        );
        let ghost cv = member_views(caps@);
        proof {
            assert(cv =~= (match capabilities_json(
                self.capabilities.text_document_sync,
                self.capabilities.hover_provider,
            ) {
                JsonVal::Obj(x) => x,
                _ => Seq::<MemberVal>::empty(),
            }));
        }
        let mut fields: Vec<JsonMember> = Vec::new();
        fields.push(
            JsonMember {
                key: String::from_str("name"),
                val: Json::Str(self.server_info.name.clone()),
            },
        );
        fields.push(
            JsonMember {
                key: String::from_str("version"),
                val: Json::Str(self.server_info.version.clone()),
            },
        );
        let ghost fv = member_views(fields@);
        proof {
            assert(fv =~= (match server_info_json(
                self.server_info.name@,
                self.server_info.version@,
            ) {
                JsonVal::Obj(x) => x,
                _ => Seq::<MemberVal>::empty(),
            }));
        }
        let mut ms: Vec<JsonMember> = Vec::new();
        ms.push(JsonMember { key: String::from_str("capabilities"), val: Json::Obj(caps) });
        ms.push(JsonMember { key: String::from_str("serverInfo"), val: Json::Obj(fields) });
        proof {
            let ws = (match self.wire() {
                JsonVal::Obj(x) => x,
                _ => Seq::<MemberVal>::empty(),
            });
            assert(member_views(ms@)[0].val == JsonVal::Obj(cv));
            assert(member_views(ms@)[1].val == JsonVal::Obj(fv));
            assert(member_views(ms@)[0] == ws[0]);
            assert(member_views(ms@)[1] == ws[1]);
            assert(member_views(ms@) =~= ws);
        }
        Json::Obj(ms)
    }
}

} // verus!
