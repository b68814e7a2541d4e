//! The typed message model of the protocol: ids, client messages, server
//! responses and error codes, plus the JSON shape of an outgoing response.

use vstd::prelude::*;

use crate::json::JsonValue;
use vstd::string::StringExecFns;

verus! {

/// The JSON RPC version currently used.
pub const JSON_RPC_VERSION: &'static str = "2.0";

/// A request/response id: either a string or an integer.
#[derive(Debug, PartialEq, Eq)]
pub enum LspId {
    String(String),
    Integer(i32),
}

/// The message an LSP client sends to this server: a request carries an id
/// to respond to, a notification does not.
#[derive(Debug, PartialEq, Eq)]
pub enum ClientMessage {
    Request { id: LspId, method: String, params: Option<JsonValue> },
    Notification { method: String, params: Option<JsonValue> },
}

/// The response the server sends to a `ClientMessage`.
#[derive(Debug, PartialEq, Eq)]
pub enum ServerResponse {
    Result { jsonrpc: String, id: Option<LspId>, result: JsonValue },
    Error { jsonrpc: String, id: Option<LspId>, error: ResponseError },
}

/// A response that signals an error.
#[derive(Debug, PartialEq, Eq)]
pub struct ResponseError {
    /// The code of the error according to `ErrorCodes`.
    pub code: i32,
    /// A custom message for the error.
    pub message: String,
    /// Optional data to supply context for the given error.
    pub data: Option<JsonValue>,
}

/// The error codes the protocol defines.
#[derive(Debug, PartialEq, Eq)]
pub enum ErrorCodes {
    ParseError,
    InvalidRequest,
    MethodNotFound,
    InvalidParams,
    InternalError,
    ServerNotInitialized,
}

impl ErrorCodes {
    /// The numeric value of the code on the wire.
    pub open spec fn code_spec(self) -> int {
        match self {
            ErrorCodes::ParseError => -32700,
            ErrorCodes::InvalidRequest => -32600,
            ErrorCodes::MethodNotFound => -32601,
            ErrorCodes::InvalidParams => -32602,
            ErrorCodes::InternalError => -32603,
            ErrorCodes::ServerNotInitialized => -32002,
        }
    }

    /// Returns the numeric value of the code.
    pub fn code(&self) -> (c: i32)
        ensures
            c == self.code_spec(),
    {
        match self {
            ErrorCodes::ParseError => -32700,
            ErrorCodes::InvalidRequest => -32600,
            ErrorCodes::MethodNotFound => -32601,
            ErrorCodes::InvalidParams => -32602,
            ErrorCodes::InternalError => -32603,
            ErrorCodes::ServerNotInitialized => -32002,
        }
    }
}

impl ServerResponse {
    /// Creates a new `ServerResponse` that is successful and carries the
    /// given result.
    pub fn new_result(id: Option<LspId>, result: JsonValue) -> (r: Self)
        ensures
            r matches ServerResponse::Result { jsonrpc: v, id: i, result: w } && v@ == "2.0"@ && i
                == id && w == result,
    {
        ServerResponse::Result { jsonrpc: JSON_RPC_VERSION.to_owned(), id, result }
    }

    /// Creates a new `ServerResponse` that failed with the given
    /// `ResponseError`.
    pub fn new_error(id: Option<LspId>, error: ResponseError) -> (r: Self)
        ensures
            r matches ServerResponse::Error { jsonrpc: v, id: i, error: e } && v@ == "2.0"@ && i
                == id && e == error,
    {
        ServerResponse::Error { jsonrpc: JSON_RPC_VERSION.to_owned(), id, error }
    }
}

impl ResponseError {
    /// Creates a new `ResponseError` with no data attached.
    pub fn new(code: ErrorCodes, message: String) -> (r: Self)
        ensures
            r.code == code.code_spec(),
            r.message == message,
            r.data is None,
    {
        ResponseError { code: code.code(), message, data: None }
    }

    /// Replaces the attached data with the one specified.
    pub fn with_data(self, data: Option<JsonValue>) -> (r: Self)
        ensures
            r.code == self.code,
            r.message == self.message,
            r.data == data,
    {
        ResponseError { data, ..self }
    }
}

/// Whether `r` is an error response with the given code and message,
/// carrying no data.
pub open spec fn is_error_response(r: ServerResponse, code: int, msg: Seq<char>) -> bool {
    r matches ServerResponse::Error { jsonrpc, id: _, error } && jsonrpc@ == "2.0"@ && error.code
        == code && error.message@ == msg && error.data is None
}

/// The id a response is addressed to.
pub open spec fn response_id_is(r: ServerResponse, id: Option<LspId>) -> bool {
    match r {
        ServerResponse::Result { id: rid, .. } => rid == id,
        ServerResponse::Error { id: rid, .. } => rid == id,
    }
}

/// The JSON value an id is written as: requests without one get `null`.
pub open spec fn id_json(id: Option<LspId>) -> JsonValue {
    match id {
        None => JsonValue::Null,
        Some(LspId::String(s)) => JsonValue::Str(s),
        Some(LspId::Integer(i)) => JsonValue::Int(i as i64),
    }
}

/// Whether `j` is the JSON object a `ResponseError` is written as: its
/// code, its message, and its data or `null`.
pub open spec fn error_json_matches(j: JsonValue, e: ResponseError) -> bool {
    &&& j matches JsonValue::Obj(es)
    &&& es@.len() == 3
    &&& es@[0].0@ == "code"@ && es@[0].1 == JsonValue::Int(e.code as i64)
    &&& es@[1].0@ == "message"@ && es@[1].1 == JsonValue::Str(e.message)
    &&& es@[2].0@ == "data"@ && es@[2].1 == (match e.data {
        Some(d) => d,
        None => JsonValue::Null,
    })
}

/// Whether `j` is the JSON envelope a `ServerResponse` is written as.
pub open spec fn response_json_matches(j: JsonValue, r: ServerResponse) -> bool {
    match r {
        ServerResponse::Result { jsonrpc, id, result } => {
            &&& j matches JsonValue::Obj(es)
            &&& es@.len() == 3
            &&& es@[0].0@ == "jsonrpc"@ && es@[0].1 == JsonValue::Str(jsonrpc)
            &&& es@[1].0@ == "id"@ && es@[1].1 == id_json(id)
            &&& es@[2].0@ == "result"@ && es@[2].1 == result
        },
        ServerResponse::Error { jsonrpc, id, error } => {
            &&& j matches JsonValue::Obj(es)
            &&& es@.len() == 3
            &&& es@[0].0@ == "jsonrpc"@ && es@[0].1 == JsonValue::Str(jsonrpc)
            &&& es@[1].0@ == "id"@ && es@[1].1 == id_json(id)
            &&& es@[2].0@ == "error"@
            &&& error_json_matches(es@[2].1, error)
        },
    }
}

/// Writes a response as the JSON envelope it is sent as.
pub fn response_to_json(r: ServerResponse) -> (j: JsonValue)
    ensures
        response_json_matches(j, r),
{
    match r {
        ServerResponse::Result { jsonrpc, id, result } => {
            let mut es: Vec<(String, JsonValue)> = Vec::new();
            es.push((String::from_str("jsonrpc"), JsonValue::Str(jsonrpc)));
            es.push((String::from_str("id"), id_to_json(id)));
            es.push((String::from_str("result"), result));
            JsonValue::Obj(es)
        },
        ServerResponse::Error { jsonrpc, id, error } => {
            let mut es: Vec<(String, JsonValue)> = Vec::new();
            es.push((String::from_str("jsonrpc"), JsonValue::Str(jsonrpc)));
            es.push((String::from_str("id"), id_to_json(id)));
            es.push((String::from_str("error"), error_to_json(error)));
            JsonValue::Obj(es)
        },
    }
}

/// Writes an id as the JSON value it is sent as.
fn id_to_json(id: Option<LspId>) -> (j: JsonValue)
    ensures
        j == id_json(id),
{
    match id {
        None => JsonValue::Null,
        Some(LspId::String(s)) => JsonValue::Str(s),
        Some(LspId::Integer(i)) => JsonValue::Int(i as i64),
    }
}

/// Writes a `ResponseError` as the JSON object it is sent as.
fn error_to_json(e: ResponseError) -> (j: JsonValue)
    ensures
        error_json_matches(j, e),
{
    let ResponseError { code, message, data } = e;
    let mut es: Vec<(String, JsonValue)> = Vec::new();
    es.push((String::from_str("code"), JsonValue::Int(code as i64)));
    es.push((String::from_str("message"), JsonValue::Str(message)));
    let data_value = match data {
        Some(d) => d,
        None => JsonValue::Null,
    };
    es.push((String::from_str("data"), data_value));
    JsonValue::Obj(es)
}

} // verus!
