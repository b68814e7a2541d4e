//! An older spelling of the response envelope kept alongside the richer
//! `jsonrpc` module: a response is a result or an error.

use vstd::prelude::*;

use crate::json::JsonValue;
use crate::jsonrpc::ErrorCodes;
use crate::jsonrpc::LspId;
use crate::jsonrpc::JSON_RPC_VERSION;
use vstd::string::StringExecFns;

verus! {

/// A response the server sends: a result, or an error.
#[derive(Debug)]
pub enum Response {
    Result { jsonrpc: String, id: Option<LspId>, result: JsonValue },
    Error { jsonrpc: String, id: Option<LspId>, error: ResponseError },
}

impl Response {
    /// Creates a successful response with the given result.
    pub fn new_result(id: Option<LspId>, result: JsonValue) -> (r: Self)
        ensures
            r matches Response::Result { jsonrpc: v, id: i, result: w } && v@ == "2.0"@ && i == id
                && w == result,
    {
        Response::Result { jsonrpc: JSON_RPC_VERSION.to_owned(), id, result }
    }

    /// Creates a failed response with the given error.
    pub fn new_error(id: Option<LspId>, error: ResponseError) -> (r: Self)
        ensures
            r matches Response::Error { jsonrpc: v, id: i, error: e } && v@ == "2.0"@ && i == id
                && e == error,
    {
        Response::Error { jsonrpc: JSON_RPC_VERSION.to_owned(), id, error }
    }
}

/// A response error: its protocol code, a message, and optional context.
#[derive(Debug)]
pub struct ResponseError {
    pub code: i32,
    pub message: String,
    pub data: Option<JsonValue>,
}

impl ResponseError {
    /// Creates a new `ResponseError` with no data attached.
    pub fn new(code: ErrorCodes, message: String) -> (r: Self)
        ensures
            r.code == code.code_spec(),
            r.message == message,
            r.data is None,
    {
        ResponseError { code: code.code(), message, data: None }
    }

    /// Replaces the attached data with the one specified.
    pub fn with_data(self, data: Option<JsonValue>) -> (r: Self)
        ensures
            r.code == self.code,
            r.message == self.message,
            r.data == data,
    {
        ResponseError { data, ..self }
    }
}

} // verus!
