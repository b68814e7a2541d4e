//! The protocol state machine: one decoded message in, one action out.

use vstd::prelude::*;

use crate::decoder::ParseJsonRPCMessageErrors;
use crate::json::JsonValue;
use crate::jsonrpc::{
    is_error_response, response_id_is, ClientMessage, ErrorCodes, LspId, ResponseError,
    ServerResponse,
};
use crate::notifications::{did_open_notification, did_open_post};
use crate::requests::{
    initialize_request, initialize_result_matches, shutdown_request, valid_initialize_params,
};
use crate::text::str_eq;
use crate::ServerState;
use vstd::string::StringExecFns;

verus! {

/// All the actions the server can take when it receives a message: answer
/// and carry on, carry on silently, or stop serving.
#[derive(Debug)]
pub enum ServerAction {
    Respond(ServerState, ServerResponse),
    Ignore(ServerState),
    Exit,
}

/// Handles one incoming message against the current server state.
///
/// The lifecycle gate: before a successful `initialize` exchange, the only
/// messages acted on are `initialize` itself and the `exit` notification —
/// which always stops the server — while everything else is answered with
/// a "server not initialized" error and changes nothing. Once initialized,
/// a second `initialize` is refused, `shutdown` is answered with an empty
/// result, `textDocument/didOpen` mutates only the document store, and
/// unknown requests are refused while unknown notifications are ignored.
/// A transport error is answered with an "invalid request" error.
pub fn handle_message(
    state: ServerState,
    message: Result<ClientMessage, ParseJsonRPCMessageErrors>,
) -> (r: ServerAction)
    ensures
        ({
            match message {
                Err(_) => r matches ServerAction::Respond(s2, resp) && s2 == state
                    && is_error_response(
                    resp,
                    ErrorCodes::InvalidRequest.code_spec(),
                    "An error occurred while trying to recieve a message!"@,
                ) && response_id_is(resp, None::<LspId>),
                Ok(ClientMessage::Request { id, method, params }) => {
                    if method@ == "initialize"@ {
                        if !state.initialized {
                            if params is None {
                                r matches ServerAction::Respond(s2, resp) && s2 == state
                                    && is_error_response(
                                    resp,
                                    ErrorCodes::InvalidParams.code_spec(),
                                    "No initialization params supplied!"@,
                                ) && response_id_is(resp, Some(id))
                            } else if params matches Some(v) && !valid_initialize_params(v) {
                                r matches ServerAction::Respond(s2, resp) && s2 == state
                                    && is_error_response(
                                    resp,
                                    ErrorCodes::InvalidParams.code_spec(),
                                    "Invalid params supplied to initialize request!"@,
                                ) && response_id_is(resp, Some(id))
                            } else {
                                r matches ServerAction::Respond(s2, resp) && s2.documents
                                    == state.documents && s2.initialized && (resp
                                    matches ServerResponse::Result { jsonrpc, id: rid, result }
                                    && jsonrpc@ == "2.0"@ && rid == Some(id)
                                    && initialize_result_matches(result))
                            }
                        } else {
                            r matches ServerAction::Respond(s2, resp) && s2 == state
                                && is_error_response(
                                resp,
                                ErrorCodes::InvalidRequest.code_spec(),
                                "The server is already initialized!"@,
                            ) && response_id_is(resp, None::<LspId>)
                        }
                    } else if !state.initialized {
                        r matches ServerAction::Respond(s2, resp) && s2 == state
                            && is_error_response(
                            resp,
                            ErrorCodes::ServerNotInitialized.code_spec(),
                            "The server needs to be initialized first with a `initialize` request!"@,
                        ) && response_id_is(resp, None::<LspId>)
                    } else if method@ == "shutdown"@ {
                        r matches ServerAction::Respond(s2, resp) && s2 == state && (resp
                            matches ServerResponse::Result { jsonrpc, id: rid, result } && jsonrpc@
                            == "2.0"@ && rid == Some(id) && result == JsonValue::Null)
                    } else {
                        r matches ServerAction::Respond(s2, resp) && s2 == state
                            && is_error_response(
                            resp,
                            ErrorCodes::InvalidRequest.code_spec(),
                            "This method is not implemented yet!"@,
                        ) && response_id_is(resp, None::<LspId>)
                    }
                },
                Ok(ClientMessage::Notification { method, params }) => {
                    if method@ == "exit"@ {
                        r is Exit
                    } else if !state.initialized {
                        r matches ServerAction::Respond(s2, resp) && s2 == state
                            && is_error_response(
                            resp,
                            ErrorCodes::ServerNotInitialized.code_spec(),
                            "The server needs to be initialized first with a `initialize` request!"@,
                        ) && response_id_is(resp, None::<LspId>)
                    } else if method@ == "textDocument/didOpen"@ {
                        r matches ServerAction::Ignore(s2) && did_open_post(state, params, s2)
                            && (state.wf() ==> s2.wf())
                    } else {
                        r matches ServerAction::Ignore(s2) && s2 == state
                    }
                },
            }
        }),
{
    let message = match message {
        Ok(message) => message,
        Err(_) => {
            let response = ServerResponse::new_error(
                None,
                ResponseError::new(
                    ErrorCodes::InvalidRequest,
                    String::from_str("An error occurred while trying to recieve a message!"),
                ),
            );
            return ServerAction::Respond(state, response);
        },
    };
    match message {
        ClientMessage::Request { id, method, params } => {
            if str_eq(method.as_str(), "initialize") {
                if !state.initialized {
                    let response = initialize_request(id, params);
                    let initialized = matches!(response, ServerResponse::Result { .. });
                    ServerAction::Respond(
                        ServerState { initialized, documents: state.documents },
                        response,
                    )
                } else {
                    let response = ServerResponse::new_error(
                        None,
                        ResponseError::new(
                            ErrorCodes::InvalidRequest,
                            String::from_str("The server is already initialized!"),
                        ),
                    );
                    ServerAction::Respond(state, response)
                }
            } else if !state.initialized {
                let response = ServerResponse::new_error(
                    None,
                    ResponseError::new(
                        ErrorCodes::ServerNotInitialized,
                        String::from_str(
                            "The server needs to be initialized first with a `initialize` request!",
                        ),
                    ),
                );
                ServerAction::Respond(state, response)
            } else if str_eq(method.as_str(), "shutdown") {
                ServerAction::Respond(state, shutdown_request(id))
            } else {
                let response = ServerResponse::new_error(
                    None,
                    ResponseError::new(
                        ErrorCodes::InvalidRequest,
                        String::from_str("This method is not implemented yet!"),
                    ),
                );
                ServerAction::Respond(state, response)
            }
        },
        ClientMessage::Notification { method, params } => {
            if str_eq(method.as_str(), "exit") {
                ServerAction::Exit
            } else if !state.initialized {
                let response = ServerResponse::new_error(
                    None,
                    ResponseError::new(
                        ErrorCodes::ServerNotInitialized,
                        String::from_str(
                            "The server needs to be initialized first with a `initialize` request!",
                        ),
                    ),
                );
                ServerAction::Respond(state, response)
            } else if str_eq(method.as_str(), "textDocument/didOpen") {
                let mut state = state;
                let _ = did_open_notification(&mut state, params);
                ServerAction::Ignore(state)
            } else {
                ServerAction::Ignore(state)
            }
        },
    }
}

} // verus!
