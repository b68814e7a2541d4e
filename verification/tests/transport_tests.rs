use mermaid_lsp::decoder::{
    classify_body, parse_content_length, DecodeEvent, DecodePhase, DecodeStep, LSPMessages,
    ParseJsonRPCMessageErrors,
};
use mermaid_lsp::encoder::encode_message;
use mermaid_lsp::json::JsonValue;
use mermaid_lsp::jsonrpc::{
    response_to_json, ClientMessage, ErrorCodes, LspId, ResponseError, ServerResponse,
};

fn obj(entries: Vec<(&str, JsonValue)>) -> JsonValue {
    JsonValue::Obj(
        entries
            .into_iter()
            .map(|(k, v)| (k.to_string(), v))
            .collect(),
    )
}

#[test]
fn encode_message_frames_exactly() {
    let body: Vec<u8> = b"{\"x\":1}".to_vec();
    let framed = encode_message(&body);
    assert_eq!(framed, b"Content-Length: 7\r\n\r\n{\"x\":1}".to_vec());
}

#[test]
fn encode_message_empty_body() {
    let framed = encode_message(&Vec::new());
    assert_eq!(framed, b"Content-Length: 0\r\n\r\n".to_vec());
}

#[test]
fn encode_then_decode_length_round_trip() {
    let body: Vec<u8> = b"{\"jsonrpc\":\"2.0\"}".to_vec();
    let framed = encode_message(&body);

    // Read the header line as the decoder's transport would: everything up
    // to and including the first newline.
    let nl = framed.iter().position(|&b| b == 10).unwrap();
    let header_line: Vec<u8> = framed[..=nl].to_vec();
    let len = parse_content_length(&header_line).unwrap();
    assert_eq!(len, body.len());

    // Skip the blank separator line; exactly the body follows.
    let rest = &framed[nl + 3..];
    assert_eq!(rest, &body[..]);
}

#[test]
fn parse_content_length_reads_plain_header() {
    let header = b"Content-Length: 123\r\n".to_vec();
    assert_eq!(parse_content_length(&header).unwrap(), 123);
}

#[test]
fn parse_content_length_without_colon_is_format_error() {
    let header = b"Content-Length 5\r\n".to_vec();
    assert_eq!(
        parse_content_length(&header).unwrap_err(),
        ParseJsonRPCMessageErrors::IncorrectHeaderFormat
    );
}

#[test]
fn parse_content_length_non_digit_is_not_a_number() {
    let header = b"Content-Length: 12x\r\n".to_vec();
    assert_eq!(
        parse_content_length(&header).unwrap_err(),
        ParseJsonRPCMessageErrors::ContentLengthNotANumber
    );
}

#[test]
fn parse_content_length_empty_value_is_not_a_number() {
    let header = b"Content-Length: \r\n".to_vec();
    assert_eq!(
        parse_content_length(&header).unwrap_err(),
        ParseJsonRPCMessageErrors::ContentLengthNotANumber
    );
}

#[test]
fn parse_content_length_huge_value_is_not_a_number() {
    let header = b"Content-Length: 99999999999999999999999999999\r\n".to_vec();
    assert_eq!(
        parse_content_length(&header).unwrap_err(),
        ParseJsonRPCMessageErrors::ContentLengthNotANumber
    );
}

#[test]
fn parse_content_length_takes_last_colon_segment() {
    let header = b"a:b: 42\r\n".to_vec();
    assert_eq!(parse_content_length(&header).unwrap(), 42);
}

#[test]
fn classify_body_integer_id_is_request() {
    let v = obj(vec![
        ("jsonrpc", JsonValue::Str("2.0".to_string())),
        ("id", JsonValue::Int(7)),
        ("method", JsonValue::Str("shutdown".to_string())),
    ]);
    let m = classify_body(v).unwrap();
    match m {
        ClientMessage::Request { id, method, params } => {
            assert_eq!(id, LspId::Integer(7));
            assert_eq!(method, "shutdown");
            assert!(params.is_none());
        }
        _ => panic!("expected a request"),
    }
}

#[test]
fn classify_body_string_id_is_request() {
    let v = obj(vec![
        ("id", JsonValue::Str("abc".to_string())),
        ("method", JsonValue::Str("initialize".to_string())),
        ("params", JsonValue::Int(5)),
    ]);
    let m = classify_body(v).unwrap();
    match m {
        ClientMessage::Request { id, method, params } => {
            assert_eq!(id, LspId::String("abc".to_string()));
            assert_eq!(method, "initialize");
            assert_eq!(params, Some(JsonValue::Int(5)));
        }
        _ => panic!("expected a request"),
    }
}

#[test]
fn classify_body_without_id_is_notification() {
    let v = obj(vec![
        ("method", JsonValue::Str("exit".to_string())),
        ("params", JsonValue::Null),
    ]);
    let m = classify_body(v).unwrap();
    match m {
        ClientMessage::Notification { method, params } => {
            assert_eq!(method, "exit");
            assert!(params.is_none());
        }
        _ => panic!("expected a notification"),
    }
}

#[test]
fn classify_body_oversized_id_falls_back_to_notification() {
    let v = obj(vec![
        ("id", JsonValue::Int(1 << 40)),
        ("method", JsonValue::Str("m".to_string())),
    ]);
    let m = classify_body(v).unwrap();
    assert!(matches!(m, ClientMessage::Notification { .. }));
}

#[test]
fn classify_body_without_method_fails() {
    let v = obj(vec![("id", JsonValue::Int(1))]);
    assert_eq!(
        classify_body(v).unwrap_err(),
        ParseJsonRPCMessageErrors::FailedToParseBody
    );
}

#[test]
fn classify_body_non_object_fails() {
    assert_eq!(
        classify_body(JsonValue::Int(3)).unwrap_err(),
        ParseJsonRPCMessageErrors::FailedToParseBody
    );
}

#[test]
fn decoder_machine_decodes_one_message() {
    let mut machine = LSPMessages::new();
    assert_eq!(machine.phase, DecodePhase::ExpectHeader);

    let step = machine.advance(DecodeEvent::HeaderLine(b"Content-Length: 2\r\n".to_vec()));
    assert!(matches!(step, DecodeStep::NeedBody(2)));
    assert_eq!(machine.phase, DecodePhase::ExpectBody(2));

    let payload = obj(vec![("method", JsonValue::Str("exit".to_string()))]);
    let step = machine.advance(DecodeEvent::Body(Some(payload)));
    match step {
        DecodeStep::Message(ClientMessage::Notification { method, .. }) => {
            assert_eq!(method, "exit");
        }
        _ => panic!("expected a decoded message"),
    }
    assert_eq!(machine.phase, DecodePhase::ExpectHeader);
}

#[test]
fn decoder_machine_recovers_from_bad_header() {
    let mut machine = LSPMessages::new();
    let step = machine.advance(DecodeEvent::HeaderLine(b"no colon here\r\n".to_vec()));
    assert!(matches!(
        step,
        DecodeStep::Recoverable(ParseJsonRPCMessageErrors::IncorrectHeaderFormat)
    ));
    assert_eq!(machine.phase, DecodePhase::ExpectHeader);
}

#[test]
fn decoder_machine_read_failure_is_fatal() {
    let mut machine = LSPMessages::new();
    let step = machine.advance(DecodeEvent::ReadFailed);
    assert!(matches!(
        step,
        DecodeStep::Fatal(ParseJsonRPCMessageErrors::FailedToReadHeader)
    ));
    assert_eq!(machine.phase, DecodePhase::Closed);
}

#[test]
fn decoder_machine_body_read_failure_is_fatal() {
    let mut machine = LSPMessages::new();
    machine.advance(DecodeEvent::HeaderLine(b"Content-Length: 4\r\n".to_vec()));
    let step = machine.advance(DecodeEvent::ReadFailed);
    assert!(matches!(
        step,
        DecodeStep::Fatal(ParseJsonRPCMessageErrors::FailedToReadBody)
    ));
    assert_eq!(machine.phase, DecodePhase::Closed);
}

#[test]
fn decoder_machine_unparsable_body_is_recoverable() {
    let mut machine = LSPMessages::new();
    machine.advance(DecodeEvent::HeaderLine(b"Content-Length: 4\r\n".to_vec()));
    let step = machine.advance(DecodeEvent::Body(None));
    assert!(matches!(
        step,
        DecodeStep::Recoverable(ParseJsonRPCMessageErrors::FailedToParseBody)
    ));
    assert_eq!(machine.phase, DecodePhase::ExpectHeader);
}

#[test]
fn error_codes_have_protocol_values() {
    assert_eq!(ErrorCodes::ParseError.code(), -32700);
    assert_eq!(ErrorCodes::InvalidRequest.code(), -32600);
    assert_eq!(ErrorCodes::MethodNotFound.code(), -32601);
    assert_eq!(ErrorCodes::InvalidParams.code(), -32602);
    assert_eq!(ErrorCodes::InternalError.code(), -32603);
    assert_eq!(ErrorCodes::ServerNotInitialized.code(), -32002);
}

#[test]
fn response_to_json_writes_result_envelope() {
    let r = ServerResponse::new_result(Some(LspId::Integer(1)), JsonValue::Null);
    let j = response_to_json(r);
    match j {
        JsonValue::Obj(es) => {
            assert_eq!(es.len(), 3);
            assert_eq!(es[0].0, "jsonrpc");
            assert_eq!(es[0].1, JsonValue::Str("2.0".to_string()));
            assert_eq!(es[1].0, "id");
            assert_eq!(es[1].1, JsonValue::Int(1));
            assert_eq!(es[2].0, "result");
            assert_eq!(es[2].1, JsonValue::Null);
        }
        _ => panic!("expected an object"),
    }
}

#[test]
fn response_to_json_writes_error_envelope() {
    let e = ResponseError::new(ErrorCodes::InvalidParams, "bad".to_string())
        .with_data(Some(JsonValue::Int(9)));
    let r = ServerResponse::new_error(None, e);
    let j = response_to_json(r);
    match j {
        JsonValue::Obj(es) => {
            assert_eq!(es[1].0, "id");
            assert_eq!(es[1].1, JsonValue::Null);
            assert_eq!(es[2].0, "error");
            match &es[2].1 {
                JsonValue::Obj(ees) => {
                    assert_eq!(ees[0].0, "code");
                    assert_eq!(ees[0].1, JsonValue::Int(-32602));
                    assert_eq!(ees[1].0, "message");
                    assert_eq!(ees[1].1, JsonValue::Str("bad".to_string()));
                    assert_eq!(ees[2].0, "data");
                    assert_eq!(ees[2].1, JsonValue::Int(9));
                }
                _ => panic!("expected an error object"),
            }
        }
        _ => panic!("expected an object"),
    }
}

#[test]
fn legacy_response_constructors_match() {
    let e = mermaid_lsp::errors::ResponseError::new(
        ErrorCodes::InternalError,
        "oops".to_string(),
    );
    assert_eq!(e.code, -32603);
    assert_eq!(e.message, "oops");
    assert!(e.data.is_none());
    let r = mermaid_lsp::errors::Response::new_error(None, e);
    assert!(matches!(r, mermaid_lsp::errors::Response::Error { .. }));
    let ok = mermaid_lsp::errors::Response::new_result(
        Some(LspId::Integer(2)),
        JsonValue::Bool(true),
    );
    match ok {
        mermaid_lsp::errors::Response::Result { jsonrpc, id, result } => {
            assert_eq!(jsonrpc, "2.0");
            assert_eq!(id, Some(LspId::Integer(2)));
            assert_eq!(result, JsonValue::Bool(true));
        }
        _ => panic!("expected a result"),
    }
}
