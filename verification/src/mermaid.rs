//! The structured representation of a parsed diagram.

use vstd::prelude::*;

use crate::diagram_body::{diagram_matches, parse_diagram};
use crate::diagram_header::{
    delim_line, header_lines, parse_header, title_ok, title_value, MermaidDiagramHeader,
};
use crate::text::join_lines;
use vstd::string::StringExecFns;

verus! {

/// Whether a text opens with an acceptable header block.
pub open spec fn header_accepted(c: Seq<char>) -> bool {
    let ls = header_lines(c);
    ls.len() >= 3 && ls[0] == delim_line() && ls[2] == ls[0] && title_ok(ls[1])
}

/// The body text a diagram is parsed from: what follows an accepted header,
/// or the whole text when no header is accepted.
pub open spec fn body_text(c: Seq<char>) -> Seq<char> {
    if header_accepted(c) {
        join_lines(header_lines(c).skip(3))
    } else {
        c
    }
}

/// The different categories of tokens analyzed from a diagram.
#[derive(Debug, Hash, PartialEq, Eq)]
pub enum TokenType {
    DiagramDirection,
    Node,
}

/// A token of the diagram language, with its position in the source text.
/// `line` is 1-based; `column` is a 0-based character offset into the line.
#[derive(Debug, PartialEq, Eq)]
pub struct MermaidToken {
    pub content: String,
    pub line: usize,
    pub column: usize,
}

/// The closed set of diagram kinds the parser can classify.
#[derive(Debug, PartialEq, Eq)]
pub enum MermaidDiagramTypes {
    /// The fallback when the diagram kind could not be recognized.
    Unknown,
    Flowchart,
    Sequence,
    Class,
    State,
    EntityRelationship,
    UserJourney,
    Gantt,
    Pie,
    Quadrant,
    Requirement,
    Gitgraph,
    Mindmap,
    Timeline,
    Zenumi,
}

impl Default for MermaidDiagramTypes {
    /// Classification degrades to `Unknown`, so that is the default.
    fn default() -> (d: Self)
        ensures
            d == MermaidDiagramTypes::Unknown,
    {
        MermaidDiagramTypes::Unknown
    }
}

/// The direction a diagram flows in.
#[derive(Debug, PartialEq, Eq)]
pub enum MermaidDiagramDirection {
    TopToBottom,
    BottomToTop,
    RightToLeft,
    LeftToRight,
}

impl Default for MermaidDiagramDirection {
    fn default() -> (d: Self)
        ensures
            d == MermaidDiagramDirection::TopToBottom,
    {
        MermaidDiagramDirection::TopToBottom
    }
}

/// The body of a parsed diagram: its classified kind and its tokens,
/// grouped by category.
#[derive(Debug, PartialEq, Eq)]
pub struct DiagramAST {
    pub d_type: MermaidDiagramTypes,
    pub tokens: Vec<(TokenType, Vec<MermaidToken>)>,
}

impl Default for DiagramAST {
    fn default() -> (d: Self)
        ensures
            d.d_type == MermaidDiagramTypes::Unknown,
            d.tokens@.len() == 0,
    {
        DiagramAST { d_type: MermaidDiagramTypes::Unknown, tokens: Vec::new() }
    }
}

/// The state of a whole diagram file: its optional header and its body.
#[derive(Debug, PartialEq, Eq)]
pub struct MermaidAST {
    pub header: Option<MermaidDiagramHeader>,
    pub diagram: DiagramAST,
}

impl Default for MermaidAST {
    fn default() -> (d: Self)
        ensures
            d.header is None,
            d.diagram.d_type == MermaidDiagramTypes::Unknown,
            d.diagram.tokens@.len() == 0,
    {
        MermaidAST { header: None, diagram: DiagramAST { d_type: MermaidDiagramTypes::Unknown, tokens: Vec::new() } }
    }
}

/// What parsing a whole diagram file promises of the resulting AST.
pub open spec fn ast_matches(r: MermaidAST, c: Seq<char>) -> bool {
    &&& header_accepted(c) ==> (r.header matches Some(h) && h.title@ == title_value(
        header_lines(c)[1],
    ))
    &&& !header_accepted(c) ==> r.header is None
    &&& diagram_matches(r.diagram, body_text(c))
}

impl MermaidAST {
    /// Parses a whole diagram file: the header is extracted when one is
    /// accepted, and the body — the rest, or the whole text otherwise — is
    /// classified and lexed.
    pub fn from_content(content: String) -> (r: Self)
        ensures
            ast_matches(r, content@),
    {
        match parse_header(content.as_str()) {
            Ok((rest, header)) => {
                let diagram = parse_diagram(rest.as_str());
                MermaidAST { header: Some(header), diagram }
            },
            Err(_) => {
                let diagram = parse_diagram(content.as_str());
                MermaidAST { header: None, diagram }
            },
        }
    }
}

} // verus!
