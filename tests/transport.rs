use mcp_gateway::error::AppError;
use mcp_gateway::http::{
    check_post_status, check_stream_status, is_legacy_sse_url, next_session, post_headers,
    response_json_text, stream_headers, LegacyStream,
};
use mcp_gateway::pending::PendingTable;
use mcp_gateway::rpc::WireId;
use mcp_gateway::stdio::{detect_log_level, StdioSession};

#[test]
fn log_levels_are_read_from_text() {
    assert_eq!(detect_log_level("Traceback (most recent call last):"), "error");
    assert_eq!(detect_log_level("error: missing key"), "error");
    assert_eq!(detect_log_level("UserWarning: deprecated"), "warn");
    assert_eq!(detect_log_level("2024 INFO server started"), "info");
    assert_eq!(detect_log_level("level=info msg=ok"), "info");
    assert_eq!(detect_log_level("starting up"), "warn");
}

#[test]
fn stdout_is_split_into_trimmed_nonblank_lines() {
    let mut s: StdioSession<u8> = StdioSession::new();
    s.push_stdout("  {\"id\":1}  \n\n{\"id\"");
    assert_eq!(s.next_line().as_deref(), Some("{\"id\":1}"));
    assert_eq!(s.next_line(), None);
    s.push_stdout(":2}\n");
    assert_eq!(s.next_line().as_deref(), Some("{\"id\":2}"));
}

#[test]
fn responses_complete_their_request_once() {
    let mut s: StdioSession<&str> = StdioSession::new();
    let a = s.begin_request("a");
    let b = s.begin_request("b");
    assert_eq!((a, b), (1, 2));
    assert_eq!(s.deliver(&WireId::Number(2)), Some("b"));
    assert_eq!(s.deliver(&WireId::Number(2)), None);
    assert_eq!(s.deliver(&WireId::Text("1".into())), None);
    assert_eq!(s.cancel(1), Some("a"));
    assert_eq!(s.deliver(&WireId::Number(1)), None);
}

#[test]
fn process_exit_fails_outstanding_requests_with_diagnostics() {
    let mut s: StdioSession<u32> = StdioSession::new();
    s.begin_request(10);
    s.begin_request(20);
    assert_eq!(s.record_stderr("   "), None);
    assert_eq!(s.record_stderr("INFO loading"), Some("info"));
    assert_eq!(s.record_stderr("ERROR: FATHOM_API_KEY is not set"), Some("error"));
    let failed = s.terminate();
    assert_eq!(failed.len(), 2);
    assert_eq!(s.deliver(&WireId::Number(1)), None);
    match s.exit_error() {
        AppError::Transport(m) => assert_eq!(m, "ERROR: FATHOM_API_KEY is not set"),
        other => panic!("unexpected {other:?}"),
    }
}

#[test]
fn exit_without_diagnostics_uses_fallback() {
    let s: StdioSession<u32> = StdioSession::new();
    match s.exit_error() {
        AppError::Transport(m) => assert_eq!(m, "Server process exited unexpectedly"),
        other => panic!("unexpected {other:?}"),
    }
}

#[test]
fn stderr_keeps_the_last_ten_errors() {
    let mut s: StdioSession<u32> = StdioSession::new();
    for i in 0..12 {
        s.record_stderr(&format!("ERROR: e{i}"));
    }
    match s.exit_error() {
        AppError::Transport(m) => {
            let lines: Vec<&str> = m.lines().collect();
            assert_eq!(lines.len(), 10);
            assert_eq!(lines[0], "ERROR: e2");
            assert_eq!(lines[9], "ERROR: e11");
        }
        other => panic!("unexpected {other:?}"),
    }
}

#[test]
fn legacy_stream_completes_once_and_ignores_strays() {
    let mut st: LegacyStream<&str> = LegacyStream::new("");
    st.register(1, "first");
    st.register(2, "second");
    st.feed("event: message\r\ndata: {\"jsonrpc\":\"2.0\",\"id\":1}\r\n\r\n");
    let p = st.next_payload().unwrap().unwrap();
    assert_eq!(p, "{\"jsonrpc\":\"2.0\",\"id\":1}");
    assert_eq!(st.complete(&WireId::Number(1)), Some("first"));
    assert!(st.next_payload().is_none());
    // a duplicate of the same answer finds nothing
    assert_eq!(st.complete(&WireId::Number(1)), None);
    // a request never answered times out, and a late answer is dropped
    assert_eq!(st.cancel(2), Some("second"));
    assert_eq!(st.complete(&WireId::Text("2".into())), None);
    assert!(st.close().is_empty());
}

#[test]
fn legacy_stream_close_fails_waiting_requests() {
    let mut st: LegacyStream<u8> = LegacyStream::new("event: ping\n\n");
    st.register(5, 50);
    assert_eq!(st.next_payload(), Some(None));
    let failed = st.close();
    assert_eq!(failed, vec![(5, 50)]);
}

#[test]
fn pending_table_insert_replaces() {
    let mut t: PendingTable<u8> = PendingTable::new();
    assert_eq!(t.insert(3, 1), None);
    assert_eq!(t.insert(3, 2), Some(1));
    assert_eq!(t.len(), 1);
    assert!(t.contains(3));
    assert_eq!(t.take(3), Some(2));
    assert_eq!(t.take(3), None);
}

#[test]
fn http_statuses_are_classified() {
    match check_post_status(401, "401 Unauthorized", "initialize", "http://h/mcp") {
        Err(AppError::AuthRequired(u)) => assert_eq!(u, "http://h/mcp"),
        other => panic!("unexpected {other:?}"),
    }
    match check_post_status(500, "500 Internal Server Error", "tools/list", "http://h/mcp") {
        Err(AppError::Transport(m)) => {
            assert_eq!(m, "HTTP request for tools/list returned status 500 Internal Server Error")
        }
        other => panic!("unexpected {other:?}"),
    }
    assert!(check_post_status(202, "202 Accepted", "x", "u").is_ok());
    assert!(matches!(check_stream_status(401, "401", "u"), Err(AppError::AuthRequired(_))));
    match check_stream_status(404, "404 Not Found", "u") {
        Err(AppError::Transport(m)) => assert_eq!(m, "SSE endpoint returned status 404 Not Found"),
        other => panic!("unexpected {other:?}"),
    }
}

#[test]
fn streamable_bodies_are_read_by_content_type() {
    assert_eq!(response_json_text("application/json", "{\"id\":1}".into()).unwrap(), "{\"id\":1}");
    assert_eq!(
        response_json_text("text/event-stream; charset=utf-8", "data: {\"id\":2}\n\n".into())
            .unwrap(),
        "{\"id\":2}"
    );
}

#[test]
fn headers_carry_token_and_session() {
    let extra = vec![("X-Key".to_string(), "v".to_string())];
    let h = post_headers(&extra, Some("tok"), Some("s1"));
    let names: Vec<&str> = h.iter().map(|p| p.0.as_str()).collect();
    assert_eq!(names, vec!["Content-Type", "Accept", "X-Key", "Authorization", "Mcp-Session-Id"]);
    assert_eq!(h[3].1, "Bearer tok");
    let g = stream_headers(&Vec::new(), None);
    assert_eq!(g, vec![("Accept".to_string(), "text/event-stream".to_string())]);
}

#[test]
fn session_ids_and_modes() {
    assert_eq!(next_session(Some("a".into()), Some("b".into())), Some("b".to_string()));
    assert_eq!(next_session(Some("a".into()), None), Some("a".to_string()));
    assert!(is_legacy_sse_url("https://h/sse"));
    assert!(!is_legacy_sse_url("https://h/mcp"));
}

#[test]
fn legacy_stream_events_split_across_chunks() {
    let mut st: LegacyStream<u8> = LegacyStream::new("");
    st.register(1, 7);
    st.feed("event: mess");
    assert_eq!(st.next_payload(), None);
    st.feed("age\ndata: {\"id\"");
    assert_eq!(st.next_payload(), None);
    st.feed(":1}\n");
    assert_eq!(st.next_payload(), None);
    st.feed("\n");
    assert_eq!(st.next_payload(), Some(Some("{\"id\":1}".to_string())));
    assert_eq!(st.complete(&WireId::Number(1)), Some(7));
}
