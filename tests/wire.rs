use mcp_gateway::error::AppError;
use mcp_gateway::rpc::{check_response_error, parse_canonical_u64, response_key, RpcErrorInfo, WireId};
use mcp_gateway::sse::{
    drain_consumed_events, extract_json_from_sse, message_payload, next_event_block,
    parse_endpoint_from_sse,
};
use mcp_gateway::text::split_lines;

fn chars(s: &str) -> Vec<char> {
    s.chars().collect()
}

#[test]
fn extract_json_takes_last_message_data() {
    let body = "event: message\ndata: {\"progress\":1}\n\nevent: message\ndata: {\"id\":1}\n\n";
    assert_eq!(extract_json_from_sse(body).unwrap(), "{\"id\":1}");
}

#[test]
fn extract_json_accepts_unnamed_events_and_skips_others() {
    let body = "data: {\"a\":1}\n\nevent: ping\ndata: {\"b\":2}\n\n";
    assert_eq!(extract_json_from_sse(body).unwrap(), "{\"a\":1}");
}

#[test]
fn extract_json_without_data_is_a_transport_error() {
    match extract_json_from_sse("event: ping\n\n") {
        Err(AppError::Transport(m)) => assert_eq!(m, "No JSON data found in SSE response"),
        other => panic!("unexpected {other:?}"),
    }
}

#[test]
fn endpoint_absolute_url_is_kept() {
    let body = "event: endpoint\ndata: https://other.example/messages?s=1\n\n";
    assert_eq!(
        parse_endpoint_from_sse(body, "http://host:8080/sse").unwrap(),
        "https://other.example/messages?s=1"
    );
}

#[test]
fn endpoint_path_is_resolved_against_origin() {
    let body = "event: endpoint\ndata: /messages?sessionId=abc\n\n";
    assert_eq!(
        parse_endpoint_from_sse(body, "http://host:8080/mcp/sse").unwrap(),
        "http://host:8080/messages?sessionId=abc"
    );
    let body2 = "event:endpoint\ndata: messages\n\n";
    assert_eq!(
        parse_endpoint_from_sse(body2, "http://host:8080/mcp/sse").unwrap(),
        "http://host:8080/messages"
    );
}

#[test]
fn endpoint_missing_is_an_error() {
    match parse_endpoint_from_sse("event: message\ndata: x\n\n", "http://h/sse") {
        Err(AppError::Transport(m)) => assert_eq!(m, "No 'endpoint' event found in SSE stream"),
        other => panic!("unexpected {other:?}"),
    }
}

#[test]
fn drain_keeps_data_after_endpoint_event() {
    let buf = "event: endpoint\ndata: /m\n\nevent: message\ndata: {}\n";
    assert_eq!(drain_consumed_events(buf), "event: message\ndata: {}\n");
    assert_eq!(drain_consumed_events("event: endpoint\ndata: /m\n\n"), "");
    assert_eq!(drain_consumed_events("event:endpoint\ndata: /m\n\nrest"), "rest");
}

#[test]
fn event_blocks_are_cut_at_blank_lines() {
    let mut buf = chars("data: {\"id\":1}\n\ndata: partial");
    let block = next_event_block(&mut buf).unwrap();
    assert_eq!(block.iter().collect::<String>(), "data: {\"id\":1}");
    assert_eq!(buf.iter().collect::<String>(), "data: partial");
    assert!(next_event_block(&mut buf).is_none());
}

#[test]
fn message_payload_joins_data_lines() {
    let p = message_payload(&chars("event: message\ndata: {\"a\":\ndata: 1}")).unwrap();
    assert_eq!(p.iter().collect::<String>(), "{\"a\":1}");
    assert!(message_payload(&chars("event: ping\ndata: x")).is_none());
    assert!(message_payload(&chars("event: message")).is_none());
}

#[test]
fn lines_drop_carriage_returns() {
    let ls = split_lines(&chars("a\r\nb\n\nc"));
    let ls: Vec<String> = ls.iter().map(|l| l.iter().collect()).collect();
    assert_eq!(ls, vec!["a", "b", "", "c"]);
}

#[test]
fn response_keys_from_numbers_and_decimal_text() {
    assert_eq!(response_key(&WireId::Number(7)), Some(7));
    assert_eq!(response_key(&WireId::Text("42".to_string())), Some(42));
    assert_eq!(response_key(&WireId::Text("042".to_string())), None);
    assert_eq!(response_key(&WireId::Text("x1".to_string())), None);
    assert_eq!(response_key(&WireId::Other), None);
    assert_eq!(parse_canonical_u64(&chars("18446744073709551615")), Some(u64::MAX));
    assert_eq!(parse_canonical_u64(&chars("18446744073709551616")), None);
    assert_eq!(parse_canonical_u64(&chars("0")), Some(0));
}

#[test]
fn backend_error_becomes_protocol_error() {
    let e = RpcErrorInfo { code: -32601, message: "Method not found".to_string() };
    match check_response_error(&Some(e)) {
        Err(AppError::Protocol(m)) => assert_eq!(m, "-32601: Method not found"),
        other => panic!("unexpected {other:?}"),
    }
    assert!(check_response_error(&None).is_ok());
}

#[test]
fn error_messages_carry_their_kind() {
    assert_eq!(AppError::ServerNotFound("x".into()).to_message(), "Server not found: x");
    assert_eq!(AppError::AuthRequired("u".into()).to_message(), "Authentication required: u");
}

#[test]
fn event_type_ends_with_its_event() {
    let body = "event: message\ndata: first\n\nevent: progress\ndata: skip\n\ndata: last\n\n";
    assert_eq!(extract_json_from_sse(body).unwrap(), "last");
    let ep = "event: endpoint\ndata: /a\n\ndata: /b\n\n";
    assert_eq!(parse_endpoint_from_sse(ep, "http://h:1/sse").unwrap(), "http://h:1/a");
}
