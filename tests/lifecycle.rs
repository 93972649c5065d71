use mcp_gateway::error::AppError;
use mcp_gateway::lifecycle::{check_plan, resolve_token_step, AppState, McpConnections, TokenStep};
use mcp_gateway::state::{
    AuthServerMetadata, McpToolDef, OAuthState, OAuthStore, OAuthTokens, ServerConfig,
    ServerStatus, ServerTransport,
};

fn server(id: &str, transport: ServerTransport) -> ServerConfig {
    ServerConfig {
        id: id.to_string(),
        name: format!("{id} name"),
        enabled: true,
        transport,
        command: None,
        args: None,
        env: None,
        url: None,
        headers: None,
        tags: None,
        status: Some(ServerStatus::Disconnected),
        last_connected: None,
        managed: None,
        managed_by: None,
        registry_name: None,
    }
}

fn tool(name: &str) -> McpToolDef {
    McpToolDef { name: name.to_string(), title: None, description: Some("echoes".into()), input_schema: None }
}

#[test]
fn scenario_process_backend_connects_and_disconnects() {
    let mut state = AppState::new();
    let mut s = server("echo", ServerTransport::Stdio);
    s.command = Some("echo-mcp-server".to_string());
    state.servers.push(s);
    let mut registry: McpConnections<String> = McpConnections::new();

    let plan = state.begin_connect("echo").unwrap();
    assert_eq!(state.servers[0].status, Some(ServerStatus::Connecting));
    assert!(check_plan(&plan).is_ok());
    assert_eq!(plan.command.as_deref(), Some("echo-mcp-server"));

    state.finish_connect("echo", vec![tool("echo")], "1700000000".to_string());
    registry.insert("echo".to_string(), "client".to_string());
    assert_eq!(state.servers[0].status, Some(ServerStatus::Connected));
    assert_eq!(state.servers[0].last_connected.as_deref(), Some("1700000000"));
    let tools = &state.connections.get("echo").unwrap().tools;
    assert_eq!(tools.len(), 1);
    assert_eq!(tools[0].server_id, "echo");
    assert_eq!(tools[0].server_name, "echo name");

    assert!(registry.remove("echo").is_some());
    state.disconnect("echo").unwrap();
    assert_eq!(state.servers[0].status, Some(ServerStatus::Disconnected));
    assert!(registry.get("echo").is_none());
    assert!(state.connections.get("echo").is_none());
}

#[test]
fn scenario_http_backend_requiring_authorization() {
    let mut state = AppState::new();
    let mut s = server("remote", ServerTransport::Http);
    s.url = Some("https://example.com/mcp".to_string());
    state.servers.push(s);
    let plan = state.begin_connect("remote").unwrap();
    assert!(check_plan(&plan).is_ok());
    // the handshake answered 401
    let err = state.connect_failed("remote", AppError::AuthRequired("https://example.com/mcp".into()));
    assert!(err.is_auth_required());
    assert_eq!(err.detail(), "Authentication required. Click Authorize to sign in.");
    assert_eq!(state.servers[0].status, Some(ServerStatus::Error));
}

#[test]
fn connect_refuses_unknown_and_duplicate() {
    let mut state = AppState::new();
    state.servers.push(server("a", ServerTransport::Stdio));
    assert!(matches!(state.begin_connect("zz"), Err(AppError::ServerNotFound(id)) if id == "zz"));
    state.begin_connect("a").unwrap();
    assert!(matches!(state.begin_connect("a"), Err(AppError::AlreadyConnected(id)) if id == "a"));
    assert!(matches!(state.disconnect("zz"), Err(AppError::ServerNotFound(_))));
}

#[test]
fn plans_need_a_command_or_url() {
    let mut state = AppState::new();
    state.servers.push(server("p", ServerTransport::Stdio));
    state.servers.push(server("h", ServerTransport::Http));
    let p = state.begin_connect("p").unwrap();
    match check_plan(&p) {
        Err(AppError::ConnectionFailed(m)) => assert_eq!(m, "No command specified"),
        other => panic!("unexpected {other:?}"),
    }
    let h = state.begin_connect("h").unwrap();
    match check_plan(&h) {
        Err(AppError::ConnectionFailed(m)) => assert_eq!(m, "No URL specified"),
        other => panic!("unexpected {other:?}"),
    }
}

#[test]
fn other_connect_failures_pass_through() {
    let mut state = AppState::new();
    state.servers.push(server("a", ServerTransport::Stdio));
    let e = state.connect_failed("a", AppError::Transport("boom".into()));
    assert!(matches!(e, AppError::Transport(m) if m == "boom"));
    assert_eq!(state.servers[0].status, Some(ServerStatus::Error));
}

#[test]
fn startup_resets_and_lists_previous_connections() {
    let mut state = AppState::new();
    let mut a = server("a", ServerTransport::Stdio);
    a.status = Some(ServerStatus::Connected);
    let b = server("b", ServerTransport::Stdio);
    let mut c = server("c", ServerTransport::Http);
    c.status = Some(ServerStatus::Connecting);
    state.servers.extend([a, b, c]);
    let list = state.startup_reset();
    let ids: Vec<&str> = list.iter().map(|p| p.0.as_str()).collect();
    assert_eq!(ids, vec!["a", "c"]);
    assert!(state.servers.iter().all(|s| s.status == Some(ServerStatus::Disconnected)));
    assert!(state.begin_reconnect("a"));
    assert_eq!(state.servers[0].status, Some(ServerStatus::Connecting));
    assert!(!state.begin_reconnect("a"));
}

#[test]
fn log_buffer_drains() {
    let mut state = AppState::new();
    state.buffer_log("a", "info", "Connecting");
    let logs = state.drain_log_buffer();
    assert_eq!(logs.len(), 1);
    assert_eq!(logs[0].message, "Connecting");
    assert!(state.drain_log_buffer().is_empty());
}

fn record(tokens: Option<OAuthTokens>) -> OAuthState {
    OAuthState {
        auth_server_metadata: AuthServerMetadata {
            issuer: "i".into(),
            authorization_endpoint: "https://a/authorize".into(),
            token_endpoint: "https://a/token".into(),
            registration_endpoint: None,
            scopes_supported: vec![],
            code_challenge_methods_supported: vec![],
        },
        client_id: Some("cid".into()),
        client_secret: None,
        tokens,
    }
}

#[test]
fn token_resolution_steps() {
    let now = 1_000_000;
    let fresh = OAuthTokens { access_token: "fresh".into(), refresh_token: None, expires_in: Some(3600), obtained_at: now };
    let stale = OAuthTokens { access_token: "old".into(), refresh_token: Some("r".into()), expires_in: Some(10), obtained_at: now - 100 };
    let dead = OAuthTokens { access_token: "old".into(), refresh_token: None, expires_in: Some(10), obtained_at: now - 100 };
    assert_eq!(resolve_token_step(Some(&record(Some(fresh))), now), TokenStep::Use("fresh".into()));
    assert_eq!(resolve_token_step(Some(&record(Some(stale))), now), TokenStep::Refresh);
    assert_eq!(resolve_token_step(Some(&record(Some(dead))), now), TokenStep::NoToken);
    assert_eq!(resolve_token_step(Some(&record(None)), now), TokenStep::NoToken);
    assert_eq!(resolve_token_step(None, now), TokenStep::NoToken);
}

#[test]
fn oauth_store_keeps_one_record_per_backend() {
    let mut store = OAuthStore::new();
    store.set("a".into(), record(None));
    assert!(store.get("a").is_some());
    store.set("a".into(), record(None));
    assert!(store.remove("a").is_some());
    assert!(store.get("a").is_none());
    assert!(store.remove("a").is_none());
}
