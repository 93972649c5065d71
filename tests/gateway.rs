use mcp_gateway::error::AppError;
use mcp_gateway::gateway::{
    call_outcome, candidate_ports, client_accepts_sse, discover_tools, discovery_call_outcome,
    hash_tool_names, list_servers, lookup_client, negotiate_version, origin_allowed,
    preferred_port, route_backend, route_discovery, summarize_params, CallToolResult,
    DiscoveryArgs, GatewayStep, McpContent, RequestInfo, RpcOutcome, ToolListHashes,
};
use mcp_gateway::lifecycle::{AppState, McpConnections};
use mcp_gateway::state::{McpToolDef, ServerConfig, ServerStatus, ServerTransport, ToolSchema};
use mcp_gateway::stats::{should_persist, ServerStats, ToolCallEntry, MAX_RECENT_CALLS};

fn server(id: &str) -> ServerConfig {
    ServerConfig {
        id: id.to_string(),
        name: format!("{id} name"),
        enabled: true,
        transport: ServerTransport::Stdio,
        command: Some("run".into()),
        args: None,
        env: None,
        url: None,
        headers: None,
        tags: None,
        status: Some(ServerStatus::Disconnected),
        last_connected: None,
        managed: None,
        managed_by: None,
        registry_name: None,
    }
}

fn schema(json: &str) -> ToolSchema {
    ToolSchema {
        json: json.to_string(),
        properties: vec![("host".into(), Some("string".into())), ("count".into(), None)],
        required: vec!["host".into()],
    }
}

fn def(name: &str, desc: &str, json: &str) -> McpToolDef {
    McpToolDef { name: name.into(), title: None, description: Some(desc.into()), input_schema: Some(schema(json)) }
}

fn connected(state: &mut AppState, id: &str, tools: Vec<McpToolDef>) {
    state.servers.push(server(id));
    state.begin_connect(id).unwrap();
    state.finish_connect(id, tools, "0".into());
}

fn req(method: &str, has_id: bool) -> RequestInfo {
    RequestInfo { has_id, method: method.into(), protocol_version: None, has_params: true, tool_name: None }
}

fn call_req(tool: &str) -> RequestInfo {
    RequestInfo { has_id: true, method: "tools/call".into(), protocol_version: None, has_params: true, tool_name: Some(tool.into()) }
}

fn args(query: Option<&str>, sid: Option<&str>, tool: Option<&str>) -> DiscoveryArgs {
    DiscoveryArgs { query: query.map(String::from), server_id: sid.map(String::from), tool_name: tool.map(String::from) }
}

fn error_of(step: GatewayStep) -> (i64, String) {
    match step {
        GatewayStep::Reply(RpcOutcome::Error { code, message }) => (code, message),
        other => panic!("unexpected {other:?}"),
    }
}

#[test]
fn scenario_discovery_finds_ping_on_both_backends() {
    let mut state = AppState::new();
    connected(&mut state, "alpha", vec![def("ping", "Ping the alpha host", "{\"a\":1}")]);
    connected(&mut state, "beta", vec![def("ping", "Check beta reachability", "{\"b\":2}")]);
    state.tool_discovery_enabled = true;
    match route_discovery(&state, call_req("discover_tools"), args(Some("ping"), None, None)) {
        GatewayStep::Reply(RpcOutcome::Matches(ms)) => {
            assert_eq!(ms.len(), 2);
            assert_eq!(ms[0].server_id, "alpha");
            assert_eq!(ms[1].server_id, "beta");
            assert_eq!(ms[0].input_schema.as_deref(), Some("{\"a\":1}"));
            assert_eq!(ms[1].input_schema.as_deref(), Some("{\"b\":2}"));
            assert_eq!(ms[0].parameters, "host (string, required), count (any)");
        }
        other => panic!("unexpected {other:?}"),
    }
}

#[test]
fn discovery_terms_must_all_match() {
    let mut state = AppState::new();
    connected(&mut state, "s", vec![def("send_message", "Send a Slack message", "{}"), def("read", "Read mail", "{}")]);
    match discover_tools(&state, "SLACK message") {
        RpcOutcome::Matches(ms) => {
            assert_eq!(ms.len(), 1);
            assert_eq!(ms[0].name, "send_message");
        }
        other => panic!("unexpected {other:?}"),
    }
    match discover_tools(&state, "calendar") {
        RpcOutcome::Text { text, is_error } => {
            assert!(!is_error);
            assert_eq!(text, "No tools found matching 'calendar'. Try broader terms or use list_servers to see available servers.");
        }
        other => panic!("unexpected {other:?}"),
    }
    assert!(matches!(discover_tools(&state, ""), RpcOutcome::Error { code: -32602, .. }));
}

#[test]
fn discovery_results_are_capped() {
    let mut state = AppState::new();
    let tools: Vec<McpToolDef> = (0..25).map(|i| def(&format!("t{i}"), "same", "{}")).collect();
    connected(&mut state, "many", tools);
    match discover_tools(&state, "same") {
        RpcOutcome::Matches(ms) => {
            assert_eq!(ms.len(), 20);
            assert_eq!(ms[19].name, "t19");
        }
        other => panic!("unexpected {other:?}"),
    }
}

#[test]
fn discovery_switched_off_refuses_everything() {
    let state = AppState::new();
    let (code, m) = error_of(route_discovery(&state, req("initialize", true), args(None, None, None)));
    assert_eq!(code, -32001);
    assert_eq!(m, "Tool discovery mode is not enabled");
    // a notification is only acknowledged, switched on or off
    assert!(matches!(route_discovery(&state, req("tools/list", false), args(None, None, None)), GatewayStep::Accepted));
}

#[test]
fn discovery_routes() {
    let mut state = AppState::new();
    connected(&mut state, "a", vec![def("x", "d", "{}")]);
    state.tool_discovery_enabled = true;
    assert!(matches!(route_discovery(&state, req("tools/list", false), args(None, None, None)), GatewayStep::Accepted));
    assert!(matches!(route_discovery(&state, req("tools/list", true), args(None, None, None)), GatewayStep::Reply(RpcOutcome::DiscoveryTools)));
    match route_discovery(&state, req("initialize", true), args(None, None, None)) {
        GatewayStep::Reply(RpcOutcome::Initialize { protocol_version, server_name, list_changed }) => {
            assert_eq!(protocol_version, "2025-03-26");
            assert_eq!(server_name, "MCP Manager \u{2014} Tool Discovery");
            assert!(!list_changed);
        }
        other => panic!("unexpected {other:?}"),
    }
    match route_discovery(&state, call_req("call_tool"), args(None, Some("a"), Some("x"))) {
        GatewayStep::CallTool { server_id, server_name, tool_name } => {
            assert_eq!((server_id.as_str(), server_name.as_str(), tool_name.as_str()), ("a", "a name", "x"));
        }
        other => panic!("unexpected {other:?}"),
    }
    let (_, m) = error_of(route_discovery(&state, call_req("call_tool"), args(None, None, Some("x"))));
    assert_eq!(m, "Missing required argument: server_id");
    let (_, m) = error_of(route_discovery(&state, call_req("call_tool"), args(None, Some("nope"), Some("x"))));
    assert_eq!(m, "No server found with ID: nope");
    let (_, m) = error_of(route_discovery(&state, call_req("bogus"), args(None, None, None)));
    assert_eq!(m, "Unknown discovery tool: bogus. Available: discover_tools, call_tool, list_servers");
    let (code, _) = error_of(route_discovery(&state, req("resources/list", true), args(None, None, None)));
    assert_eq!(code, -32601);
}

#[test]
fn list_servers_shows_connected_backends() {
    let mut state = AppState::new();
    assert!(matches!(list_servers(&state), RpcOutcome::Text { text, .. } if text == "No servers are currently connected."));
    connected(&mut state, "a", vec![def("x", "d", "{}"), def("y", "d", "{}")]);
    state.servers.push(server("off"));
    match list_servers(&state) {
        RpcOutcome::Servers(ls) => {
            assert_eq!(ls.len(), 1);
            assert_eq!(ls[0].tool_count, 2);
            assert_eq!(ls[0].tools, vec!["x".to_string(), "y".to_string()]);
        }
        other => panic!("unexpected {other:?}"),
    }
}

#[test]
fn notifications_get_202_and_nothing_else() {
    let mut state = AppState::new();
    connected(&mut state, "a", vec![]);
    for m in ["initialize", "tools/list", "tools/call", "whatever"] {
        assert!(matches!(route_backend(&state, "a", req(m, false)), GatewayStep::Accepted));
        assert!(matches!(route_backend(&state, "unknown", req(m, false)), GatewayStep::Accepted));
    }
    assert_eq!(state.servers[0].status, Some(ServerStatus::Connected));
}

#[test]
fn backend_routes() {
    let mut state = AppState::new();
    connected(&mut state, "a", vec![def("x", "d", "{}")]);
    let mut init = req("initialize", true);
    init.protocol_version = Some("2024-11-05".into());
    match route_backend(&state, "a", init) {
        GatewayStep::Reply(RpcOutcome::Initialize { protocol_version, server_name, list_changed }) => {
            assert_eq!(protocol_version, "2024-11-05");
            assert_eq!(server_name, "MCP Manager \u{2014} a name");
            assert!(list_changed);
        }
        other => panic!("unexpected {other:?}"),
    }
    match route_backend(&state, "a", req("tools/list", true)) {
        GatewayStep::Reply(RpcOutcome::Tools(ts)) => {
            assert_eq!(ts.len(), 1);
            assert_eq!(ts[0].name, "x");
        }
        other => panic!("unexpected {other:?}"),
    }
    let (code, m) = error_of(route_backend(&state, "zz", req("tools/list", true)));
    assert_eq!((code, m.as_str()), (-32602, "No server found with ID: zz"));
    let (_, m) = error_of(route_backend(&state, "a", req("tools/call", true)));
    assert_eq!(m, "Missing tool name in params");
    let mut np = req("tools/call", true);
    np.has_params = false;
    let (_, m) = error_of(route_backend(&state, "a", np));
    assert_eq!(m, "Missing params for tools/call");
    let (_, m) = error_of(route_backend(&state, "a", req("ping", true)));
    assert_eq!(m, "Method not found: ping");
    assert!(matches!(route_backend(&state, "a", call_req("x")), GatewayStep::CallTool { .. }));
}

#[test]
fn tool_list_twice_is_the_same() {
    let mut state = AppState::new();
    connected(&mut state, "a", vec![def("x", "d", "{}"), def("y", "e", "{}")]);
    let names = |s: GatewayStep| match s {
        GatewayStep::Reply(RpcOutcome::Tools(ts)) => ts.into_iter().map(|t| t.name).collect::<Vec<_>>(),
        other => panic!("unexpected {other:?}"),
    };
    let first = names(route_backend(&state, "a", req("tools/list", true)));
    let second = names(route_backend(&state, "a", req("tools/list", true)));
    assert_eq!(first, second);
}

#[test]
fn unconnected_backend_call_names_it() {
    let conns: McpConnections<u8> = McpConnections::new();
    match lookup_client(&conns, "a", "Alpha") {
        Err(RpcOutcome::Error { code, message }) => {
            assert_eq!(code, -32602);
            assert_eq!(message, "Server 'Alpha' is not connected");
        }
        other => panic!("unexpected {other:?}"),
    }
}

#[test]
fn tool_results_and_failures() {
    let ok = CallToolResult { content: vec![], is_error: None };
    assert!(matches!(call_outcome(Ok(ok)), (RpcOutcome::ToolResult(_), false)));
    let flagged = CallToolResult { content: vec![], is_error: Some(true) };
    assert!(matches!(call_outcome(Ok(flagged)), (RpcOutcome::ToolResult(_), true)));
    match call_outcome(Err(AppError::Transport("timeout".into()))) {
        (RpcOutcome::Error { code, message }, true) => {
            assert_eq!(code, -32603);
            assert_eq!(message, "Tool call failed: Transport error: timeout");
        }
        other => panic!("unexpected {other:?}"),
    }
}

#[test]
fn routed_failures_carry_the_schema() {
    let mut state = AppState::new();
    connected(&mut state, "a", vec![def("x", "d", "{\"type\":\"object\"}")]);
    let item = McpContent { kind: "text".into(), text: Some("bad host".into()), json: "{}".into() };
    let failed = CallToolResult { content: vec![item], is_error: Some(true) };
    match discovery_call_outcome(&state, "a", "x", Ok(failed)) {
        (RpcOutcome::Text { text, is_error: true }, true) => {
            assert_eq!(text, "bad host\n\nExpected inputSchema for 'x':\n{\"type\":\"object\"}");
        }
        other => panic!("unexpected {other:?}"),
    }
    match discovery_call_outcome(&state, "a", "nope", Err(AppError::Transport("t".into()))) {
        (RpcOutcome::Text { text, .. }, true) => assert_eq!(text, "Tool call failed: Transport error: t"),
        other => panic!("unexpected {other:?}"),
    }
}

#[test]
fn tool_change_is_announced_once() {
    let mut state = AppState::new();
    connected(&mut state, "a", vec![def("b", "", "{}"), def("a", "", "{}")]);
    let tools = &state.connections.get("a").unwrap().tools;
    let h1 = hash_tool_names(tools);
    let mut rev: Vec<_> = tools.iter().cloned().collect();
    rev.reverse();
    assert_eq!(h1, hash_tool_names(&rev));
    let mut hashes = ToolListHashes::new();
    assert!(hashes.should_notify("a", h1));
    assert!(!hashes.should_notify("a", h1));
    assert!(hashes.should_notify("a", h1 ^ 1));
}

#[test]
fn negotiation_origin_and_accept() {
    assert_eq!(negotiate_version("2024-11-05"), "2024-11-05");
    assert_eq!(negotiate_version("1999-01-01"), "2025-03-26");
    assert!(origin_allowed(None));
    assert!(origin_allowed(Some("http://localhost:5173")));
    assert!(origin_allowed(Some("http://127.0.0.1")));
    assert!(!origin_allowed(Some("http://localhost.evil.com")));
    assert!(!origin_allowed(Some("https://example.com")));
    assert!(client_accepts_sse(Some("application/json, text/event-stream")));
    assert!(!client_accepts_sse(Some("application/json")));
    assert!(!client_accepts_sse(None));
}

#[test]
fn ports() {
    assert_eq!(preferred_port(0), 55000);
    assert_eq!(preferred_port(12345), 57345);
    let c = candidate_ports(64995);
    assert_eq!(c.len(), 20);
    assert_eq!(c[0], 64995);
    assert_eq!(c[5], 55000);
}

#[test]
fn summaries_of_parameters() {
    assert_eq!(summarize_params(&None), "");
    assert_eq!(summarize_params(&Some(schema("{}"))), "host (string, required), count (any)");
}

#[test]
fn call_statistics() {
    let mut s = ServerStats::new();
    s.record("echo", "cursor", 12, false, 100);
    s.record("echo", "", 8, true, 101);
    assert_eq!((s.total_calls, s.errors, s.total_duration_ms), (2, 1, 20));
    let t = s.tools.get("echo").unwrap();
    assert_eq!((t.total_calls, t.errors, t.total_duration_ms), (2, 1, 20));
    assert_eq!(s.clients.get("cursor"), Some(&1));
    assert!(s.clients.get("").is_none());
    assert_eq!(s.recent_calls.len(), 2);
    assert!(should_persist(10));
    assert!(!should_persist(11));
}

#[test]
fn recent_calls_are_bounded() {
    let mut s = ServerStats::new();
    for i in 0..(MAX_RECENT_CALLS as u64 + 5) {
        s.push_call(ToolCallEntry { tool: format!("t{i}"), client: String::new(), duration_ms: 1, is_error: false, timestamp: i });
    }
    assert_eq!(s.recent_calls.len(), MAX_RECENT_CALLS);
    assert_eq!(s.recent_calls[0].timestamp, 5);
}
