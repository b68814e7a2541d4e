//! The notification handlers: `textDocument/didOpen`.

use vstd::prelude::*;

use crate::json::{obj_get, obj_get_spec, JsonValue};
use crate::mermaid::{ast_matches, MermaidAST};
use crate::text::str_eq;
use crate::ServerState;

verus! {

/// The document named in a `textDocument/didOpen` notification.
#[derive(Debug)]
pub struct TextDocumentItem {
    /// The document's URI.
    pub uri: String,
    /// The content of the opened document.
    pub text: String,
}

/// Params supplied to the `textDocument/didOpen` method.
#[derive(Debug)]
pub struct DidOpenTextDocumentParams {
    /// The document that was opened.
    pub text_document: TextDocumentItem,
}

/// Errors when handling a `textDocument/didOpen` notification.
#[derive(Debug, PartialEq, Eq)]
pub enum DidOpenTextDocumentErrors {
    NoParamsSupplied,
    InvalidParams,
    FileAlreadyOpened,
}

/// The URI and text carried by a structurally valid `didOpen` payload: an
/// object whose `textDocument` object holds string `uri` and `text`
/// fields.
pub open spec fn did_open_fields(v: JsonValue) -> Option<(String, String)> {
    match v {
        JsonValue::Obj(es) => match obj_get_spec(es@, "textDocument"@) {
            Some(JsonValue::Obj(tes)) => match (
                obj_get_spec(tes@, "uri"@),
                obj_get_spec(tes@, "text"@),
            ) {
                (Some(JsonValue::Str(u)), Some(JsonValue::Str(t))) => Some((u, t)),
                _ => None,
            },
            _ => None,
        },
        _ => None,
    }
}

/// Parses a `didOpen` payload into its typed params; succeeds exactly on
/// structurally valid payloads.
pub fn parse_did_open_params(v: &JsonValue) -> (r: Result<
    DidOpenTextDocumentParams,
    DidOpenTextDocumentErrors,
>)
    ensures
        ({
            match did_open_fields(*v) {
                Some(f) => r matches Ok(p) && p.text_document.uri == f.0 && p.text_document.text
                    == f.1,
                None => r == Err::<DidOpenTextDocumentParams, DidOpenTextDocumentErrors>(
                    DidOpenTextDocumentErrors::InvalidParams,
                ),
            }
        }),
{
    let es = match v {
        JsonValue::Obj(es) => es,
        _ => {
            return Err(DidOpenTextDocumentErrors::InvalidParams);
        },
    };
    let tes = match obj_get(es, "textDocument") {
        Some(JsonValue::Obj(tes)) => tes,
        _ => {
            return Err(DidOpenTextDocumentErrors::InvalidParams);
        },
    };
    let uri = match obj_get(tes, "uri") {
        Some(JsonValue::Str(u)) => u.clone(),
        _ => {
            return Err(DidOpenTextDocumentErrors::InvalidParams);
        },
    };
    let text = match obj_get(tes, "text") {
        Some(JsonValue::Str(t)) => t.clone(),
        _ => {
            return Err(DidOpenTextDocumentErrors::InvalidParams);
        },
    };
    Ok(DidOpenTextDocumentParams { text_document: TextDocumentItem { uri, text } })
}

/// Builds the AST for a newly opened file.
pub fn generate_mermaid_ast(file_contents: String) -> (r: MermaidAST)
    ensures
        ast_matches(r, file_contents@),
{
    MermaidAST::from_content(file_contents)
}

/// How the server state may change when a `didOpen` notification is
/// handled: on any failure it stays as it was; on success exactly the
/// named document is appended, carrying the AST of its text.
pub open spec fn did_open_post(
    old_state: ServerState,
    params: Option<JsonValue>,
    new_state: ServerState,
) -> bool {
    match params {
        None => new_state == old_state,
        Some(v) => match did_open_fields(v) {
            None => new_state == old_state,
            Some(f) => {
                if old_state.has_doc(f.0@) {
                    new_state == old_state
                } else {
                    &&& new_state.initialized == old_state.initialized
                    &&& new_state.documents@.len() == old_state.documents@.len() + 1
                    &&& new_state.documents@.take(old_state.documents@.len() as int)
                        == old_state.documents@
                    &&& new_state.documents@.last().0 == f.0
                    &&& ast_matches(new_state.documents@.last().1, f.1@)
                }
            },
        },
    }
}

/// Handles the document-open notification: the params are validated, the
/// document must not be open already, and on success its parsed AST is
/// stored under its URI. No response is ever sent for it; failures are the
/// caller's to log.
pub fn did_open_notification(state: &mut ServerState, params: Option<JsonValue>) -> (r: Result<
    (),
    DidOpenTextDocumentErrors,
>)
    ensures
        old(state).wf() ==> final(state).wf(),
        did_open_post(*old(state), params, *final(state)),
        ({
            match params {
                None => r == Err::<(), DidOpenTextDocumentErrors>(
                    DidOpenTextDocumentErrors::NoParamsSupplied,
                ),
                Some(v) => match did_open_fields(v) {
                    None => r == Err::<(), DidOpenTextDocumentErrors>(
                        DidOpenTextDocumentErrors::InvalidParams,
                    ),
                    Some(f) => if old(state).has_doc(f.0@) {
                        r == Err::<(), DidOpenTextDocumentErrors>(
                            DidOpenTextDocumentErrors::FileAlreadyOpened,
                        )
                    } else {
                        r is Ok
                    },
                },
            }
        }),
{
    let v = match params {
        None => {
            return Err(DidOpenTextDocumentErrors::NoParamsSupplied);
        },
        Some(v) => v,
    };
    let parsed = match parse_did_open_params(&v) {
        Ok(p) => p,
        Err(e) => {
            return Err(e);
        },
    };
    let TextDocumentItem { uri, text } = parsed.text_document;

    // Reopening an already-open URI is an error, not an overwrite.
    let n = state.documents.len();
    let mut k: usize = 0;
    while k < n
        invariant
            k <= n,
            *state == *old(state),
            n == state.documents@.len(),
            forall|j: int| 0 <= j < k ==> (#[trigger] state.documents@[j]).0@ != uri@,
            params == Some(v),
            did_open_fields(v) matches Some(f) && f.0 == uri,
        decreases n - k,
    {
        if str_eq(state.documents[k].0.as_str(), uri.as_str()) {
            assert(state.documents@[k as int].0@ == uri@);
            assert(old(state).has_doc(uri@));
            return Err(DidOpenTextDocumentErrors::FileAlreadyOpened);
        }
        k = k + 1;
    }
    assert(!state.has_doc(uri@));

    let ast = generate_mermaid_ast(text);
    let ghost old_docs = state.documents@;
    state.documents.push((uri, ast));
    proof {
        assert(state.documents@.take(old_docs.len() as int) =~= old_docs);
        if old(state).wf() {
            assert forall|i: int, j: int| 0 <= i < j < state.documents@.len() implies (
            #[trigger] state.documents@[i]).0@ != (#[trigger] state.documents@[j]).0@ by {
                if j == state.documents@.len() - 1 {
                    assert(state.documents@[i] == old_docs[i]);
                }
            }
        }
    }
    Ok(())
}

} // verus!
