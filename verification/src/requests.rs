//! The request handlers: the `initialize` handshake and `shutdown`.

use vstd::prelude::*;

use crate::json::{obj_get, obj_get_spec, JsonValue};
use crate::jsonrpc::{is_error_response, response_id_is, ErrorCodes, LspId, ResponseError, ServerResponse};
use vstd::string::StringExecFns;

verus! {

/// Errors when handling an initialize request.
#[derive(Debug, PartialEq, Eq)]
pub enum InitializeRequestErrors {
    ParamsParsingError,
}

/// The params supplied to the `initialize` request.
#[derive(Debug)]
pub struct InitializeRequestParams {
    /// Information about the client.
    pub client_info: Option<AppInfo>,
    /// The capabilities provided by the client (editor or tool).
    pub capabilities: ClientCapabilities,
}

/// Identification of one side of the session, as it names itself.
#[derive(Debug)]
pub struct AppInfo {
    /// The name of the app as defined by the app.
    pub name: String,
    /// The app's version as defined by the app.
    pub version: Option<String>,
}

/// The capabilities a client declares.
#[derive(Debug)]
pub struct ClientCapabilities {
    /// Workspace specific client capabilities.
    pub workspace: Option<WorkspaceCapabilities>,
}

/// Workspace specific client capabilities.
#[derive(Debug)]
pub struct WorkspaceCapabilities {
    /// Whether the client supports applying batch edits to the workspace.
    pub apply_edit: Option<bool>,
}

/// What the server answers an `initialize` request with.
#[derive(Debug)]
pub struct InitializeResult {
    /// The capabilities the language server provides.
    pub capabilities: ServerCapabilities,
    /// Information about the server.
    pub server_info: AppInfo,
}

/// The capabilities this server advertises.
#[derive(Debug)]
pub struct ServerCapabilities {
    /// How text documents are synced, as a `TextDocumentSyncKind` number.
    pub text_document_sync: u8,
}

/// How the host (editor) should sync document changes to the language
/// server.
#[derive(Debug, PartialEq, Eq)]
pub enum TextDocumentSyncKind {
    /// Documents should not be synced at all.
    NoSync,
    /// Documents are synced by always sending the full content.
    Full,
    /// Documents are synced by sending the full content on open, then
    /// incremental updates.
    Incremental,
}

impl TextDocumentSyncKind {
    /// The number a sync kind is written as on the wire.
    pub open spec fn kind_spec(self) -> int {
        match self {
            TextDocumentSyncKind::NoSync => 0,
            TextDocumentSyncKind::Full => 1,
            TextDocumentSyncKind::Incremental => 2,
        }
    }

    /// Returns the number a sync kind is written as on the wire.
    pub fn kind(&self) -> (k: u8)
        ensures
            k == self.kind_spec(),
    {
        match self {
            TextDocumentSyncKind::NoSync => 0,
            TextDocumentSyncKind::Full => 1,
            TextDocumentSyncKind::Incremental => 2,
        }
    }
}

/// Whether an `applyEdit` field is acceptable: absent, `null`, or a bool.
pub open spec fn apply_edit_ok(a: Option<JsonValue>) -> bool {
    match a {
        None => true,
        Some(JsonValue::Null) => true,
        Some(JsonValue::Bool(_)) => true,
        _ => false,
    }
}

/// Whether a `workspace` field is acceptable: absent, `null`, or an object
/// whose `applyEdit` is acceptable.
pub open spec fn workspace_ok(w: Option<JsonValue>) -> bool {
    match w {
        None => true,
        Some(JsonValue::Null) => true,
        Some(JsonValue::Obj(wes)) => apply_edit_ok(obj_get_spec(wes@, "applyEdit"@)),
        _ => false,
    }
}

/// Whether a `clientInfo` field is acceptable: absent, `null`, or an
/// object with a string `name` and an absent, `null` or string `version`.
pub open spec fn client_info_ok(ci: Option<JsonValue>) -> bool {
    match ci {
        None => true,
        Some(JsonValue::Null) => true,
        Some(JsonValue::Obj(ces)) => {
            &&& obj_get_spec(ces@, "name"@) matches Some(JsonValue::Str(_))
            &&& match obj_get_spec(ces@, "version"@) {
                None => true,
                Some(JsonValue::Null) => true,
                Some(JsonValue::Str(_)) => true,
                _ => false,
            }
        },
        _ => false,
    }
}

/// Whether an initialize payload is structurally valid: an object with a
/// required, acceptable `capabilities` object and an acceptable optional
/// `clientInfo`.
pub open spec fn valid_initialize_params(v: JsonValue) -> bool {
    match v {
        JsonValue::Obj(es) => {
            &&& match obj_get_spec(es@, "capabilities"@) {
                Some(JsonValue::Obj(ces)) => workspace_ok(obj_get_spec(ces@, "workspace"@)),
                _ => false,
            }
            &&& client_info_ok(obj_get_spec(es@, "clientInfo"@))
        },
        _ => false,
    }
}

/// Reads the `applyEdit` field of a workspace object.
fn parse_apply_edit(wes: &Vec<(String, JsonValue)>) -> (r: Result<
    Option<bool>,
    InitializeRequestErrors,
>)
    ensures
        apply_edit_ok(obj_get_spec(wes@, "applyEdit"@)) <==> r is Ok,
        r matches Ok(b) ==> match obj_get_spec(wes@, "applyEdit"@) {
            None => b is None,
            Some(JsonValue::Null) => b is None,
            Some(JsonValue::Bool(x)) => b == Some(x),
            _ => false,
        },
{
    match obj_get(wes, "applyEdit") {
        None => Ok(None),
        Some(JsonValue::Null) => Ok(None),
        Some(JsonValue::Bool(x)) => Ok(Some(*x)),
        _ => Err(InitializeRequestErrors::ParamsParsingError),
    }
}

/// Reads a `clientInfo` value as an `AppInfo`.
fn parse_client_info(ci: &JsonValue) -> (r: Result<Option<AppInfo>, InitializeRequestErrors>)
    ensures
        client_info_ok(Some(*ci)) <==> r is Ok,
        r matches Ok(Some(info)) ==> (*ci matches JsonValue::Obj(ces) && obj_get_spec(
            ces@,
            "name"@,
        ) == Some(JsonValue::Str(info.name)) && match obj_get_spec(ces@, "version"@) {
            None => info.version is None,
            Some(JsonValue::Null) => info.version is None,
            Some(JsonValue::Str(v)) => info.version == Some(v),
            _ => false,
        }),
        r matches Ok(x) && x is None ==> *ci is Null,
{
    match ci {
        JsonValue::Null => Ok(None),
        JsonValue::Obj(ces) => {
            let name = match obj_get(ces, "name") {
                Some(JsonValue::Str(s)) => s.clone(),
                _ => {
                    return Err(InitializeRequestErrors::ParamsParsingError);
                },
            };
            let version = match obj_get(ces, "version") {
                None => None,
                Some(JsonValue::Null) => None,
                Some(JsonValue::Str(s)) => Some(s.clone()),
                _ => {
                    return Err(InitializeRequestErrors::ParamsParsingError);
                },
            };
            Ok(Some(AppInfo { name, version }))
        },
        _ => Err(InitializeRequestErrors::ParamsParsingError),
    }
}

/// Parses an initialize payload into its typed params; succeeds exactly on
/// structurally valid payloads.
pub fn parse_initialize_params(v: &JsonValue) -> (r: Result<
    InitializeRequestParams,
    InitializeRequestErrors,
>)
    ensures
        valid_initialize_params(*v) <==> r is Ok,
        !(valid_initialize_params(*v)) ==> r == Err::<InitializeRequestParams,
            InitializeRequestErrors,
        >(InitializeRequestErrors::ParamsParsingError),
{
    let es = match v {
        JsonValue::Obj(es) => es,
        _ => {
            return Err(InitializeRequestErrors::ParamsParsingError);
        },
    };
    let workspace = match obj_get(es, "capabilities") {
        Some(JsonValue::Obj(ces)) => {
            match obj_get(ces, "workspace") {
                None => None,
                Some(JsonValue::Null) => None,
                Some(JsonValue::Obj(wes)) => {
                    match parse_apply_edit(wes) {
                        Ok(apply_edit) => Some(WorkspaceCapabilities { apply_edit }),
                        Err(e) => {
                            return Err(e);
                        },
                    }
                },
                _ => {
                    return Err(InitializeRequestErrors::ParamsParsingError);
                },
            }
        },
        _ => {
            return Err(InitializeRequestErrors::ParamsParsingError);
        },
    };
    let client_info = match obj_get(es, "clientInfo") {
        None => None,
        Some(ci) => {
            match parse_client_info(ci) {
                Ok(info) => info,
                Err(e) => {
                    return Err(e);
                },
            }
        },
    };
    Ok(InitializeRequestParams { client_info, capabilities: ClientCapabilities { workspace } })
}

/// Whether `j` is the result object this server answers an initialize
/// request with: full-document sync, and the server's own name and
/// version.
pub open spec fn initialize_result_matches(j: JsonValue) -> bool {
    &&& j matches JsonValue::Obj(es)
    &&& es@.len() == 2
    &&& es@[0].0@ == "capabilities"@
    &&& es@[0].1 matches JsonValue::Obj(ces)
    &&& ces@.len() == 1
    &&& ces@[0].0@ == "textDocumentSync"@ && ces@[0].1 == JsonValue::Int(1)
    &&& es@[1].0@ == "serverInfo"@
    &&& es@[1].1 matches JsonValue::Obj(ses)
    &&& ses@.len() == 2
    &&& ses@[0].0@ == "name"@
    &&& ses@[0].1 matches JsonValue::Str(nm) && nm@ == "mermaid_lsp"@
    &&& ses@[1].0@ == "version"@
    &&& ses@[1].1 matches JsonValue::Str(ver) && ver@ == "0.1.0"@
}

/// Writes an `InitializeResult` as the JSON object it is sent as.
fn initialize_result_to_json(r: InitializeResult) -> (j: JsonValue)
    ensures
        ({
            &&& j matches JsonValue::Obj(es)
            &&& es@.len() == 2
            &&& es@[0].0@ == "capabilities"@
            &&& es@[0].1 matches JsonValue::Obj(ces)
            &&& ces@.len() == 1
            &&& ces@[0].0@ == "textDocumentSync"@
            &&& ces@[0].1 == JsonValue::Int(r.capabilities.text_document_sync as i64)
            &&& es@[1].0@ == "serverInfo"@
            &&& es@[1].1 matches JsonValue::Obj(ses)
            &&& ses@.len() == 2
            &&& ses@[0].0@ == "name"@ && ses@[0].1 == JsonValue::Str(r.server_info.name)
            &&& ses@[1].0@ == "version"@ && ses@[1].1 == (match r.server_info.version {
                Some(v) => JsonValue::Str(v),
                None => JsonValue::Null,
            })
        }),
{
    let InitializeResult { capabilities, server_info } = r;
    let mut ces: Vec<(String, JsonValue)> = Vec::new();
    ces.push(
        (
            String::from_str("textDocumentSync"),
            JsonValue::Int(capabilities.text_document_sync as i64),
        ),
    );
    let mut ses: Vec<(String, JsonValue)> = Vec::new();
    ses.push((String::from_str("name"), JsonValue::Str(server_info.name)));
    let version_value = match server_info.version {
        Some(v) => JsonValue::Str(v),
        None => JsonValue::Null,
    };
    ses.push((String::from_str("version"), version_value));
    let mut es: Vec<(String, JsonValue)> = Vec::new();
    es.push((String::from_str("capabilities"), JsonValue::Obj(ces)));
    es.push((String::from_str("serverInfo"), JsonValue::Obj(ses)));
    JsonValue::Obj(es)
}

/// Handles the `initialize` request, the first request of a session: the
/// params are validated, and a valid request is answered with the server's
/// info and capabilities. The caller flips the lifecycle flag on success.
pub fn initialize_request(id: LspId, params: Option<JsonValue>) -> (r: ServerResponse)
    ensures
        params is None ==> is_error_response(
            r,
            ErrorCodes::InvalidParams.code_spec(),
            "No initialization params supplied!"@,
        ) && response_id_is(r, Some(id)),
        (params matches Some(v) && !valid_initialize_params(v)) ==> is_error_response(
            r,
            ErrorCodes::InvalidParams.code_spec(),
            "Invalid params supplied to initialize request!"@,
        ) && response_id_is(r, Some(id)),
        (params matches Some(v) && valid_initialize_params(v)) ==> (r matches ServerResponse::Result {
            jsonrpc,
            id: rid,
            result,
        } && jsonrpc@ == "2.0"@ && rid == Some(id) && initialize_result_matches(result)),
{
    let v = match params {
        None => {
            return ServerResponse::new_error(
                Some(id),
                ResponseError::new(
                    ErrorCodes::InvalidParams,
                    String::from_str("No initialization params supplied!"),
                ),
            );
        },
        Some(v) => v,
    };
    match parse_initialize_params(&v) {
        Ok(_) => {
            let server_result = InitializeResult {
                server_info: AppInfo {
                    name: String::from_str("mermaid_lsp"),
                    version: Some(String::from_str("0.1.0")),
                },
                capabilities: ServerCapabilities {
                    text_document_sync: TextDocumentSyncKind::Full.kind(),
                },
            };
            let result = initialize_result_to_json(server_result);
            ServerResponse::new_result(Some(id), result)
        },
        Err(_) => {
            ServerResponse::new_error(
                Some(id),
                ResponseError::new(
                    ErrorCodes::InvalidParams,
                    String::from_str("Invalid params supplied to initialize request!"),
                ),
            )
        },
    }
}

/// Handles the `shutdown` request: the answer is an empty result, and the
/// caller keeps serving until the `exit` notification arrives.
pub fn shutdown_request(id: LspId) -> (r: ServerResponse)
    ensures
        r matches ServerResponse::Result { jsonrpc, id: rid, result } && jsonrpc@ == "2.0"@ && rid
            == Some(id) && result == JsonValue::Null,
{
    ServerResponse::new_result(Some(id), JsonValue::Null)
}

} // verus!
