use mermaid_lsp::decoder::ParseJsonRPCMessageErrors;
use mermaid_lsp::json::JsonValue;
use mermaid_lsp::jsonrpc::{ClientMessage, LspId, ServerResponse};
use mermaid_lsp::mermaid::MermaidDiagramTypes;
use mermaid_lsp::notifications::{did_open_notification, DidOpenTextDocumentErrors};
use mermaid_lsp::requests::{initialize_request, shutdown_request};
use mermaid_lsp::server::{handle_message, ServerAction};
use mermaid_lsp::ServerState;

fn obj(entries: Vec<(&str, JsonValue)>) -> JsonValue {
    JsonValue::Obj(
        entries
            .into_iter()
            .map(|(k, v)| (k.to_string(), v))
            .collect(),
    )
}

fn valid_init_params() -> JsonValue {
    obj(vec![
        (
            "clientInfo",
            obj(vec![("name", JsonValue::Str("editor".to_string()))]),
        ),
        ("capabilities", obj(vec![])),
    ])
}

fn did_open_params(uri: &str, text: &str) -> JsonValue {
    obj(vec![(
        "textDocument",
        obj(vec![
            ("uri", JsonValue::Str(uri.to_string())),
            ("languageId", JsonValue::Str("mermaid".to_string())),
            ("version", JsonValue::Int(1)),
            ("text", JsonValue::Str(text.to_string())),
        ]),
    )])
}

fn request(id: i32, method: &str, params: Option<JsonValue>) -> ClientMessage {
    ClientMessage::Request {
        id: LspId::Integer(id),
        method: method.to_string(),
        params,
    }
}

fn notification(method: &str, params: Option<JsonValue>) -> ClientMessage {
    ClientMessage::Notification {
        method: method.to_string(),
        params,
    }
}

fn error_code(resp: &ServerResponse) -> i32 {
    match resp {
        ServerResponse::Error { error, .. } => error.code,
        _ => panic!("expected an error response"),
    }
}

#[test]
fn shutdown_before_initialize_is_refused() {
    let state = ServerState::default();
    let action = handle_message(state, Ok(request(1, "shutdown", None)));
    match action {
        ServerAction::Respond(state, resp) => {
            assert!(!state.initialized);
            assert_eq!(error_code(&resp), -32002);
        }
        _ => panic!("expected a response"),
    }
}

#[test]
fn second_initialize_is_refused() {
    let state = ServerState::default();
    let action = handle_message(state, Ok(request(1, "initialize", Some(valid_init_params()))));
    let state = match action {
        ServerAction::Respond(state, resp) => {
            assert!(state.initialized);
            assert!(matches!(resp, ServerResponse::Result { .. }));
            state
        }
        _ => panic!("expected a response"),
    };
    let action = handle_message(state, Ok(request(2, "initialize", Some(valid_init_params()))));
    match action {
        ServerAction::Respond(state, resp) => {
            assert!(state.initialized);
            assert_eq!(error_code(&resp), -32600);
        }
        _ => panic!("expected a response"),
    }
}

#[test]
fn initialize_with_invalid_params_stays_uninitialized() {
    let state = ServerState::default();
    let bad = obj(vec![("capabilities", JsonValue::Int(4))]);
    let action = handle_message(state, Ok(request(1, "initialize", Some(bad))));
    match action {
        ServerAction::Respond(state, resp) => {
            assert!(!state.initialized);
            assert_eq!(error_code(&resp), -32602);
        }
        _ => panic!("expected a response"),
    }
}

#[test]
fn initialize_without_params_is_invalid() {
    let resp = initialize_request(LspId::Integer(1), None);
    assert_eq!(error_code(&resp), -32602);
}

#[test]
fn reopening_a_document_is_an_error_and_changes_nothing() {
    let mut state = ServerState::default();
    state.initialized = true;
    let first = did_open_notification(
        &mut state,
        Some(did_open_params("file:///a.mmd", "flowchart LR\nA --> B\n")),
    );
    assert!(first.is_ok());
    assert_eq!(state.documents.len(), 1);
    assert_eq!(
        state.documents[0].1.diagram.d_type,
        MermaidDiagramTypes::Flowchart
    );

    let second = did_open_notification(
        &mut state,
        Some(did_open_params("file:///a.mmd", "gibberish")),
    );
    assert_eq!(
        second.unwrap_err(),
        DidOpenTextDocumentErrors::FileAlreadyOpened
    );
    assert_eq!(state.documents.len(), 1);
    assert_eq!(
        state.documents[0].1.diagram.d_type,
        MermaidDiagramTypes::Flowchart
    );
}

#[test]
fn did_open_without_params_is_an_error() {
    let mut state = ServerState::default();
    state.initialized = true;
    let r = did_open_notification(&mut state, None);
    assert_eq!(r.unwrap_err(), DidOpenTextDocumentErrors::NoParamsSupplied);
    assert!(state.documents.is_empty());
}

#[test]
fn did_open_with_malformed_params_is_an_error() {
    let mut state = ServerState::default();
    state.initialized = true;
    let r = did_open_notification(&mut state, Some(JsonValue::Int(1)));
    assert_eq!(r.unwrap_err(), DidOpenTextDocumentErrors::InvalidParams);
    assert!(state.documents.is_empty());
}

#[test]
fn did_open_stores_header_title() {
    let mut state = ServerState::default();
    state.initialized = true;
    let text = "---\ntitle: Plan\n---\nflowchart TD\nA --> B\n";
    let r = did_open_notification(
        &mut state,
        Some(did_open_params("file:///plan.mmd", text)),
    );
    assert!(r.is_ok());
    let ast = &state.documents[0].1;
    assert_eq!(ast.header.as_ref().unwrap().title, "Plan");
    assert_eq!(ast.diagram.d_type, MermaidDiagramTypes::Flowchart);
}

#[test]
fn unknown_notification_is_ignored() {
    let state = ServerState::default();
    let action = handle_message(state, Ok(request(1, "initialize", Some(valid_init_params()))));
    let state = match action {
        ServerAction::Respond(state, _) => state,
        _ => panic!("expected a response"),
    };
    let action = handle_message(state, Ok(notification("workspace/didChangeWatchedFiles", None)));
    match action {
        ServerAction::Ignore(state) => {
            assert!(state.initialized);
            assert!(state.documents.is_empty());
        }
        _ => panic!("expected the notification to be ignored"),
    }
}

#[test]
fn transport_error_is_answered_with_invalid_request() {
    let state = ServerState::default();
    let action = handle_message(state, Err(ParseJsonRPCMessageErrors::FailedToParseBody));
    match action {
        ServerAction::Respond(state, resp) => {
            assert!(!state.initialized);
            assert_eq!(error_code(&resp), -32600);
        }
        _ => panic!("expected a response"),
    }
}

#[test]
fn exit_stops_the_server_even_before_initialize() {
    let state = ServerState::default();
    let action = handle_message(state, Ok(notification("exit", None)));
    assert!(matches!(action, ServerAction::Exit));
}

#[test]
fn shutdown_request_returns_null_result() {
    let resp = shutdown_request(LspId::Integer(9));
    match resp {
        ServerResponse::Result { jsonrpc, id, result } => {
            assert_eq!(jsonrpc, "2.0");
            assert_eq!(id, Some(LspId::Integer(9)));
            assert_eq!(result, JsonValue::Null);
        }
        _ => panic!("expected a result"),
    }
}

#[test]
fn initialize_shutdown_exit_end_to_end() {
    let state = ServerState::default();

    // initialize(id=1, valid params): a result with the server's info and
    // full-document sync.
    let action = handle_message(state, Ok(request(1, "initialize", Some(valid_init_params()))));
    let state = match action {
        ServerAction::Respond(state, resp) => {
            assert!(state.initialized);
            match resp {
                ServerResponse::Result { id, result, .. } => {
                    assert_eq!(id, Some(LspId::Integer(1)));
                    match result {
                        JsonValue::Obj(es) => {
                            let caps = es
                                .iter()
                                .find(|(k, _)| k == "capabilities")
                                .map(|(_, v)| v)
                                .unwrap();
                            match caps {
                                JsonValue::Obj(ces) => {
                                    let sync = ces
                                        .iter()
                                        .find(|(k, _)| k == "textDocumentSync")
                                        .map(|(_, v)| v)
                                        .unwrap();
                                    assert_eq!(*sync, JsonValue::Int(1));
                                }
                                _ => panic!("expected a capabilities object"),
                            }
                            let info = es
                                .iter()
                                .find(|(k, _)| k == "serverInfo")
                                .map(|(_, v)| v)
                                .unwrap();
                            match info {
                                JsonValue::Obj(ses) => {
                                    let name = ses
                                        .iter()
                                        .find(|(k, _)| k == "name")
                                        .map(|(_, v)| v)
                                        .unwrap();
                                    assert_eq!(*name, JsonValue::Str("mermaid_lsp".to_string()));
                                }
                                _ => panic!("expected a serverInfo object"),
                            }
                        }
                        _ => panic!("expected a result object"),
                    }
                }
                _ => panic!("expected a result response"),
            }
            state
        }
        _ => panic!("expected a response"),
    };

    // shutdown(id=2): result null.
    let action = handle_message(state, Ok(request(2, "shutdown", None)));
    let state = match action {
        ServerAction::Respond(state, resp) => {
            match resp {
                ServerResponse::Result { id, result, .. } => {
                    assert_eq!(id, Some(LspId::Integer(2)));
                    assert_eq!(result, JsonValue::Null);
                }
                _ => panic!("expected a result response"),
            }
            state
        }
        _ => panic!("expected a response"),
    };

    // exit: the loop terminates with no further output.
    let action = handle_message(state, Ok(notification("exit", None)));
    assert!(matches!(action, ServerAction::Exit));
}
