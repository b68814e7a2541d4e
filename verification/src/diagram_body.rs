//! Classification of a diagram body by its first token, and assembly of the
//! body's AST.

use vstd::prelude::*;

use crate::flowchart::{direction_spec, flowchart_nodes, parse_flowchart, tokens_match};
use crate::mermaid::{DiagramAST, MermaidDiagramTypes, MermaidToken, TokenType};
use crate::text::{first_token, lemma_find_ws, lemma_trim_start, skip_ws_from, find_ws_from, str_eq};
use vstd::string::StrSliceExecFns;

verus! {

/// The diagram kind named by a first token. Classification is a closed
/// table with `Unknown` as the fallback; it degrades, it never fails.
pub open spec fn type_of_token(t: Seq<char>) -> MermaidDiagramTypes {
    if t == "flowchart"@ {
        MermaidDiagramTypes::Flowchart
    } else if t == "sequenceDiagram"@ {
        MermaidDiagramTypes::Sequence
    } else if t == "classDiagram"@ {
        MermaidDiagramTypes::Class
    } else if t == "stateDiagram"@ || t == "stateDiagram-v2"@ {
        MermaidDiagramTypes::State
    } else if t == "erDiagram"@ {
        MermaidDiagramTypes::EntityRelationship
    } else if t == "journey"@ {
        MermaidDiagramTypes::UserJourney
    } else if t == "gantt"@ {
        MermaidDiagramTypes::Gantt
    } else if t == "pie"@ {
        MermaidDiagramTypes::Pie
    } else if t == "quadrantChart"@ {
        MermaidDiagramTypes::Quadrant
    } else if t == "requirementDiagram"@ {
        MermaidDiagramTypes::Requirement
    } else if t == "gitGraph"@ {
        MermaidDiagramTypes::Gitgraph
    } else if t == "mindmap"@ {
        MermaidDiagramTypes::Mindmap
    } else if t == "timeline"@ {
        MermaidDiagramTypes::Timeline
    } else if t == "zenuml"@ {
        MermaidDiagramTypes::Zenumi
    } else {
        MermaidDiagramTypes::Unknown
    }
}

/// The classification of a body text: the kind named by its first
/// whitespace-delimited token.
pub open spec fn diagram_type_spec(s: Seq<char>) -> MermaidDiagramTypes {
    type_of_token(first_token(s))
}

/// Attempts to parse a diagram type from a line: the first
/// whitespace-delimited token is matched, case-sensitively, against the
/// fixed keyword table.
pub fn parse_diagram_type(type_line: &str) -> (r: MermaidDiagramTypes)
    ensures
        r == diagram_type_spec(type_line@),
{
    let ghost cv = type_line@;
    let n = type_line.unicode_len();
    let a = skip_ws_from(type_line, n, 0);
    let b = find_ws_from(type_line, n, a);
    proof {
        lemma_trim_start(cv, a as int);
        lemma_find_ws(cv.skip(a as int), b - a);
        assert(cv.skip(a as int).take(b - a) =~= cv.subrange(a as int, b as int));
    }
    let tok = type_line.substring_char(a, b);
    assert(tok@ == first_token(cv));
    if str_eq(tok, "flowchart") {
        MermaidDiagramTypes::Flowchart
    } else if str_eq(tok, "sequenceDiagram") {
        MermaidDiagramTypes::Sequence
    } else if str_eq(tok, "classDiagram") {
        MermaidDiagramTypes::Class
    } else if str_eq(tok, "stateDiagram") {
        MermaidDiagramTypes::State
    } else if str_eq(tok, "stateDiagram-v2") {
        MermaidDiagramTypes::State
    } else if str_eq(tok, "erDiagram") {
        MermaidDiagramTypes::EntityRelationship
    } else if str_eq(tok, "journey") {
        MermaidDiagramTypes::UserJourney
    } else if str_eq(tok, "gantt") {
        MermaidDiagramTypes::Gantt
    } else if str_eq(tok, "pie") {
        MermaidDiagramTypes::Pie
    } else if str_eq(tok, "quadrantChart") {
        MermaidDiagramTypes::Quadrant
    } else if str_eq(tok, "requirementDiagram") {
        MermaidDiagramTypes::Requirement
    } else if str_eq(tok, "gitGraph") {
        MermaidDiagramTypes::Gitgraph
    } else if str_eq(tok, "mindmap") {
        MermaidDiagramTypes::Mindmap
    } else if str_eq(tok, "timeline") {
        MermaidDiagramTypes::Timeline
    } else if str_eq(tok, "zenuml") {
        MermaidDiagramTypes::Zenumi
    } else {
        MermaidDiagramTypes::Unknown
    }
}

/// What `parse_diagram` promises of its result on the body text `s`.
pub open spec fn diagram_matches(r: DiagramAST, s: Seq<char>) -> bool {
    &&& r.d_type == diagram_type_spec(s)
    &&& diagram_type_spec(s) == MermaidDiagramTypes::Flowchart ==> {
        &&& r.tokens@.len() == 2
        &&& r.tokens@[0].0 == TokenType::DiagramDirection
        &&& r.tokens@[0].1@.len() == 1
        &&& r.tokens@[0].1@[0].content@ == direction_spec(s)
        &&& r.tokens@[0].1@[0].line == 1
        &&& r.tokens@[0].1@[0].column == 11
        &&& r.tokens@[1].0 == TokenType::Node
        &&& tokens_match(r.tokens@[1].1@, flowchart_nodes(s))
    }
    &&& diagram_type_spec(s) != MermaidDiagramTypes::Flowchart ==> r.tokens@.len() == 0
}

/// Parses an entire diagram body into its AST. Never fails: unrecognized
/// content yields an `Unknown` diagram with no tokens. Only flowcharts get
/// a token analysis.
pub fn parse_diagram(content: &str) -> (r: DiagramAST)
    ensures
        diagram_matches(r, content@),
{
    let d_type = parse_diagram_type(content);
    let tokens: Vec<(TokenType, Vec<MermaidToken>)> = match d_type {
        MermaidDiagramTypes::Flowchart => parse_flowchart(content),
        _ => Vec::new(),
    };
    DiagramAST { d_type, tokens }
}

} // verus!
