//! A language-server backend for a textual diagram-description language:
//! it decodes length-framed messages, keeps a handshake-gated lifecycle,
//! and turns opened documents into a per-document diagram AST.

use vstd::prelude::*;

pub mod decoder;
pub mod diagram_body;
pub mod diagram_header;
pub mod encoder;
pub mod errors;
pub mod flowchart;
pub mod json;
pub mod jsonrpc;
pub mod mermaid;
pub mod notifications;
pub mod requests;
pub mod server;
pub mod text;

use crate::mermaid::MermaidAST;

verus! {

/// The whole state of the server: the open documents with their parsed
/// ASTs, keyed by URI, and the lifecycle flag.
#[derive(Debug)]
pub struct ServerState {
    /// All documents that have been opened and the server recognizes: for
    /// each, the URI of the file and the AST parsed from its text. A URI
    /// appears at most once.
    pub documents: Vec<(String, MermaidAST)>,

    /// Whether the server has been initialized. It starts false and flips
    /// to true exactly once, on a successful initialize exchange.
    pub initialized: bool,
}

impl ServerState {
    /// The store's invariant: a document URI appears at most once.
    pub open spec fn wf(&self) -> bool {
        forall|i: int, j: int|
            0 <= i < j < self.documents@.len() ==> (#[trigger] self.documents@[i]).0@ != (
            #[trigger] self.documents@[j]).0@
    }

    /// Whether a document with this URI is open.
    pub open spec fn has_doc(&self, uri: Seq<char>) -> bool {
        exists|i: int| 0 <= i < self.documents@.len() && (#[trigger] self.documents@[i]).0@ == uri
    }
}

impl Default for ServerState {
    /// A fresh server: no documents, not initialized.
    fn default() -> (s: Self)
        ensures
            s.documents@.len() == 0,
            !s.initialized,
            s.wf(),
    {
        ServerState { documents: Vec::new(), initialized: false }
    }
}

} // verus!
