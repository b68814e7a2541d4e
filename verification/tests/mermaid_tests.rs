use mermaid_lsp::diagram_body::parse_diagram;
use mermaid_lsp::diagram_body::parse_diagram_type;
use mermaid_lsp::diagram_header::{parse_header, parse_title, ParseHeaderErrors, ParseTitleErrors};
use mermaid_lsp::flowchart::{parse_direction, parse_flowchart};
use mermaid_lsp::mermaid::{MermaidDiagramTypes, MermaidToken, TokenType};

const SUCCESS_DIAGRAM: &str = r#"flowchart LR
    A[Start] --> B{Is it?}
    B -- Yes --> C[OK]
    C --> D[Rethink]
    D --> B
    B -- No ----> E[End]
"#;

#[test]
fn parse_diagram_success() {
    let diagram = r#"
flowchart TD
    A[Start] --> B{Is it?}
    B -- Yes --> C[OK]
    C --> D[Rethink]
    D --> B
    B -- No ----> E[End]
"#;

    let result = parse_diagram(diagram);
    assert_eq!(result.d_type, MermaidDiagramTypes::Flowchart)
}

#[test]
fn parse_diagram_type_success() {
    let type_lines = [
        "flowchart TD\n",
        "sequenceDiagram\n",
        "classDiagram\n",
        "stateDiagram-v2\n",
        "stateDiagram\n",
        "erDiagram\n",
        "journey\n",
        "gantt\n",
        "pie\n",
        "quadrantChart\n",
        "requirementDiagram\n",
        "gitGraph\n",
        "mindmap\n",
        "timeline\n",
        "zenuml\n",
    ];

    let expected_results = [
        MermaidDiagramTypes::Flowchart,
        MermaidDiagramTypes::Sequence,
        MermaidDiagramTypes::Class,
        MermaidDiagramTypes::State,
        MermaidDiagramTypes::State,
        MermaidDiagramTypes::EntityRelationship,
        MermaidDiagramTypes::UserJourney,
        MermaidDiagramTypes::Gantt,
        MermaidDiagramTypes::Pie,
        MermaidDiagramTypes::Quadrant,
        MermaidDiagramTypes::Requirement,
        MermaidDiagramTypes::Gitgraph,
        MermaidDiagramTypes::Mindmap,
        MermaidDiagramTypes::Timeline,
        MermaidDiagramTypes::Zenumi,
    ];

    type_lines
        .iter()
        .map(|&line| (line, parse_diagram_type(line)))
        .zip(expected_results)
        .for_each(|((input, actual), expected)| {
            assert_eq!(
                actual, expected,
                "Input supplied to parse_diagram_type: {}",
                input
            )
        });
}

#[test]
fn parse_title_success() {
    let title = "A normal mermaid title";
    let title_line = format!("title: {}", title);

    let result = parse_title(&title_line).unwrap();

    assert_eq!(result, title);
}

#[test]
fn parse_title_without_space() {
    let title = "A normal mermaid title";
    let title_line = format!("title:{}", title);

    let result = parse_title(&title_line).unwrap();

    assert_eq!(result, title);
}

#[test]
fn parse_title_fail_incorrect_format() {
    let title = "A normal mermaid title";
    let title_line = format!("tite:{}", title);

    let result = parse_title(&title_line).unwrap_err();

    assert_eq!(result, ParseTitleErrors::IncorrectTitleFormat);
}

#[test]
fn parse_header_success() {
    let title = "A normal mermaid title";
    let content = format!(
        r#"---
title:{}
---"#,
        title
    );

    let (rest, header) = parse_header(&content).unwrap();

    assert_eq!(header.title, title);
    assert_eq!(rest, "");
}

#[test]
fn parse_header_fail_top_delimiter() {
    let title = "A normal mermaid title";
    let content = format!(
        r#"--
title:{}
---"#,
        title
    );

    let err = parse_header(&content).unwrap_err();

    assert_eq!(err, ParseHeaderErrors::InvalidTopDelimiterFormat);
}

#[test]
fn parse_header_fail_bottom_delimiter() {
    let title = "A normal mermaid title";
    let content = format!(
        r#"---
title:{}
--"#,
        title
    );

    let err = parse_header(&content).unwrap_err();

    assert_eq!(err, ParseHeaderErrors::InvalidBottomDelimiterFormat);
}

#[test]
fn parse_header_fail_not_enough_lines() {
    let content = "---\n---";

    let err = parse_header(content).unwrap_err();

    assert_eq!(err, ParseHeaderErrors::NotEnoughHeaderLines);
}

#[test]
fn parse_direction_success() {
    let expected = MermaidToken {
        content: "LR".to_string(),
        line: 1,
        column: 11,
    };
    let actual = parse_direction(SUCCESS_DIAGRAM);

    assert_eq!(expected, actual);
}

#[test]
fn parse_flowchart_success() {
    let expected_nodes = vec![
        MermaidToken {
            content: "A".to_string(),
            line: 4,
            column: 1,
        },
        MermaidToken {
            content: "B".to_string(),
            line: 2,
            column: 17,
        },
        MermaidToken {
            content: "C".to_string(),
            line: 3,
            column: 17,
        },
        MermaidToken {
            content: "D".to_string(),
            line: 4,
            column: 10,
        },
        MermaidToken {
            content: "E".to_string(),
            line: 6,
            column: 18,
        },
    ];
    let tokens = parse_flowchart(SUCCESS_DIAGRAM);

    let nodes = &tokens
        .iter()
        .find(|(t, _)| *t == TokenType::Node)
        .unwrap()
        .1;

    println!("EXPECTED: {:?}", expected_nodes);
    println!("ACTUAL: {:?}", nodes);

    let all_are_in_expected = nodes.iter().all(|n| expected_nodes.contains(n));
    assert!(all_are_in_expected);
}

#[test]
fn parse_header_exact_title_and_empty_remainder() {
    let (rest, header) = parse_header("---\ntitle: X\n---").unwrap();
    assert_eq!(header.title, "X");
    assert_eq!(rest, "");
}

#[test]
fn parse_header_keeps_remainder_lines() {
    let (rest, header) = parse_header("---\ntitle: T\n---\nflowchart LR\ndone").unwrap();
    assert_eq!(header.title, "T");
    assert_eq!(rest, "\nflowchart LR\ndone");
}

#[test]
fn parse_header_skips_leading_whitespace() {
    let (rest, header) = parse_header("\n  \n---\ntitle:abc\n---").unwrap();
    assert_eq!(header.title, "abc");
    assert_eq!(rest, "");
}

#[test]
fn parse_diagram_gibberish_is_unknown() {
    let result = parse_diagram("gibberish");
    assert_eq!(result.d_type, MermaidDiagramTypes::Unknown);
    assert!(result.tokens.is_empty());
}

#[test]
fn parse_diagram_flowchart_records_direction() {
    let result = parse_diagram("flowchart LR\nA --> B\n");
    assert_eq!(result.d_type, MermaidDiagramTypes::Flowchart);
    let direction = &result
        .tokens
        .iter()
        .find(|(t, _)| *t == TokenType::DiagramDirection)
        .unwrap()
        .1;
    assert_eq!(direction.len(), 1);
    assert_eq!(direction[0].content, "LR");
    assert_eq!(direction[0].line, 1);
    assert_eq!(direction[0].column, 11);
}

#[test]
fn parse_direction_defaults_without_second_token() {
    let actual = parse_direction("flowchart\nA --> B\n");
    assert_eq!(actual.content, "TD");
    assert_eq!(actual.line, 1);
    assert_eq!(actual.column, 11);
}

#[test]
fn parse_direction_defaults_on_empty_text() {
    let actual = parse_direction("");
    assert_eq!(actual.content, "TD");
}

#[test]
fn parse_flowchart_dedups_nodes_keeping_first_position() {
    let tokens = parse_flowchart("flowchart LR\nx --> B\ny --> B\n");
    let nodes = &tokens
        .iter()
        .find(|(t, _)| *t == TokenType::Node)
        .unwrap()
        .1;
    assert_eq!(nodes.len(), 1);
    assert_eq!(nodes[0].content, "B");
    assert_eq!(nodes[0].line, 2);
    assert_eq!(nodes[0].column, 6);
}

#[test]
fn parse_title_trims_whitespace() {
    let result = parse_title("title:   spaced out   ").unwrap();
    assert_eq!(result, "spaced out");
}
