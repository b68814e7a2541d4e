use mermaid_lsp::json::JsonValue;
use mermaid_lsp::mermaid::{MermaidAST, MermaidDiagramTypes};
use mermaid_lsp::requests::{
    parse_initialize_params, InitializeRequestErrors, TextDocumentSyncKind,
};
use mermaid_lsp::ServerState;

fn obj(entries: Vec<(&str, JsonValue)>) -> JsonValue {
    JsonValue::Obj(
        entries
            .into_iter()
            .map(|(k, v)| (k.to_string(), v))
            .collect(),
    )
}

#[test]
fn initialize_params_are_parsed_into_fields() {
    let v = obj(vec![
        (
            "clientInfo",
            obj(vec![
                ("name", JsonValue::Str("editor".to_string())),
                ("version", JsonValue::Str("9.9".to_string())),
            ]),
        ),
        (
            "capabilities",
            obj(vec![(
                "workspace",
                obj(vec![("applyEdit", JsonValue::Bool(true))]),
            )]),
        ),
    ]);
    let p = parse_initialize_params(&v).unwrap();
    let info = p.client_info.unwrap();
    assert_eq!(info.name, "editor");
    assert_eq!(info.version, Some("9.9".to_string()));
    assert_eq!(p.capabilities.workspace.unwrap().apply_edit, Some(true));
}

#[test]
fn initialize_params_require_capabilities() {
    let v = obj(vec![(
        "clientInfo",
        obj(vec![("name", JsonValue::Str("editor".to_string()))]),
    )]);
    assert_eq!(
        parse_initialize_params(&v).unwrap_err(),
        InitializeRequestErrors::ParamsParsingError
    );
}

#[test]
fn initialize_params_reject_wrongly_typed_client_info() {
    let v = obj(vec![
        ("clientInfo", JsonValue::Int(4)),
        ("capabilities", obj(vec![])),
    ]);
    assert_eq!(
        parse_initialize_params(&v).unwrap_err(),
        InitializeRequestErrors::ParamsParsingError
    );
}

#[test]
fn sync_kinds_have_wire_numbers() {
    assert_eq!(TextDocumentSyncKind::NoSync.kind(), 0);
    assert_eq!(TextDocumentSyncKind::Full.kind(), 1);
    assert_eq!(TextDocumentSyncKind::Incremental.kind(), 2);
}

#[test]
fn from_content_extracts_header_and_body() {
    let ast = MermaidAST::from_content("---\ntitle: T\n---\nflowchart LR\n".to_string());
    assert_eq!(ast.header.unwrap().title, "T");
    assert_eq!(ast.diagram.d_type, MermaidDiagramTypes::Flowchart);
}

#[test]
fn from_content_without_header_parses_whole_text() {
    let ast = MermaidAST::from_content("sequenceDiagram\n".to_string());
    assert!(ast.header.is_none());
    assert_eq!(ast.diagram.d_type, MermaidDiagramTypes::Sequence);
}

#[test]
fn server_state_starts_empty_and_uninitialized() {
    let state = ServerState::default();
    assert!(state.documents.is_empty());
    assert!(!state.initialized);
}

#[test]
fn mermaid_ast_defaults_to_unknown() {
    let ast = MermaidAST::default();
    assert!(ast.header.is_none());
    assert_eq!(ast.diagram.d_type, MermaidDiagramTypes::Unknown);
    assert!(ast.diagram.tokens.is_empty());
}
