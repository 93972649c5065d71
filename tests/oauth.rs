use mcp_gateway::oauth::{first_metadata_source, MetadataSource};
use mcp_gateway::error::AppError;
use mcp_gateway::oauth::{
    auth_server_metadata_url, build_authorization_url, choose_client, discovery_urls,
    exchange_form, generate_pkce, generate_state_nonce, is_token_expired, is_token_expired_at,
    pkce_from_bytes, refresh_form, refresh_request, registered_client, store_refreshed,
    tokens_from_grant, verify_callback_state, ClientPlan, PkceChallenge, on_callback,
    oauth_target, CallbackAction, PendingAuthorization,
};
use mcp_gateway::lifecycle::AppState;
use mcp_gateway::state::{ServerConfig, ServerTransport};
use mcp_gateway::state::{AuthServerMetadata, OAuthState, OAuthStore, OAuthTokens};

fn metadata(reg: Option<&str>, scopes: Vec<&str>) -> AuthServerMetadata {
    AuthServerMetadata {
        issuer: "https://auth.example".into(),
        authorization_endpoint: "https://auth.example/authorize".into(),
        token_endpoint: "https://auth.example/token".into(),
        registration_endpoint: reg.map(String::from),
        scopes_supported: scopes.into_iter().map(String::from).collect(),
        code_challenge_methods_supported: vec!["S256".into()],
    }
}

fn tokens(expires_in: Option<u64>, obtained_at: u64) -> OAuthTokens {
    OAuthTokens { access_token: "at".into(), refresh_token: Some("rt".into()), expires_in, obtained_at }
}

#[test]
fn expiry_boundary() {
    let now = 2_000_000;
    // expires 59 seconds from now: treated as expired
    assert!(is_token_expired_at(&tokens(Some(59), now), now));
    // expires 61 seconds from now: still valid
    assert!(!is_token_expired_at(&tokens(Some(61), now), now));
    assert!(is_token_expired_at(&tokens(Some(60), now), now));
    assert!(is_token_expired_at(&tokens(Some(10), now - 1000), now));
    assert!(!is_token_expired_at(&tokens(None, 0), now));
    assert!(!is_token_expired(&tokens(None, 0)));
}

#[test]
fn state_mismatch_is_rejected() {
    assert!(verify_callback_state("abc", "abc").is_ok());
    match verify_callback_state("abc", "abd") {
        Err(AppError::OAuth(m)) => assert_eq!(m, "OAuth state mismatch \u{2014} possible CSRF attack"),
        other => panic!("unexpected {other:?}"),
    }
}

#[test]
fn pkce_pair_is_s256_of_verifier() {
    let p = pkce_from_bytes(&[0u8; 32]);
    assert_eq!(p.code_verifier, "AAAAAAAAAAAAAAAAAAAAAAAAAAAAAAAAAAAAAAAAAAA");
    // SHA-256 of the verifier, base64url without padding
    assert_eq!(p.code_challenge, "DwBzhbb51LfusnSGBa_hqYSgo7-j8BTQnip4TOnlzRo");
    assert_ne!(p.code_challenge, p.code_verifier);
    let g = generate_pkce();
    assert_eq!(g.code_verifier.len(), 43);
    assert_eq!(generate_state_nonce().len(), 22);
}

#[test]
fn authorization_url_carries_pkce_and_state() {
    let pkce = PkceChallenge { code_verifier: "v".into(), code_challenge: "ch".into() };
    let url = build_authorization_url(&metadata(None, vec!["read", "write"]), "cid", "http://127.0.0.1:1234/oauth/callback", &pkce, "st").unwrap();
    assert_eq!(
        url,
        "https://auth.example/authorize?response_type=code&client_id=cid&redirect_uri=http%3A%2F%2F127.0.0.1%3A1234%2Foauth%2Fcallback&code_challenge=ch&code_challenge_method=S256&state=st&scope=read+write"
    );
    let mut bad = metadata(None, vec![]);
    bad.authorization_endpoint = "not a url".into();
    assert!(matches!(build_authorization_url(&bad, "c", "r", &pkce, "s"), Err(AppError::OAuth(_))));
}

#[test]
fn client_choice() {
    let stored = OAuthState { auth_server_metadata: metadata(None, vec![]), client_id: Some("c1".into()), client_secret: Some("s".into()), tokens: None };
    assert!(matches!(choose_client(Some(&stored), &metadata(None, vec![])), Ok(ClientPlan::Stored { client_id, .. }) if client_id == "c1"));
    assert!(matches!(choose_client(None, &metadata(Some("https://auth.example/register"), vec![])), Ok(ClientPlan::Register { endpoint }) if endpoint == "https://auth.example/register"));
    assert!(matches!(choose_client(None, &metadata(None, vec![])), Err(AppError::OAuth(_))));
}

#[test]
fn token_forms() {
    let f = exchange_form("code1", "http://r", "cid", "ver", Some("sec"));
    let keys: Vec<&str> = f.iter().map(|p| p.0.as_str()).collect();
    assert_eq!(keys, vec!["grant_type", "code", "redirect_uri", "client_id", "code_verifier", "client_secret"]);
    assert_eq!(f[0].1, "authorization_code");
    let r = refresh_form("rt", "cid", None);
    assert_eq!(r.len(), 3);
    assert_eq!(r[0].1, "refresh_token");
}

#[test]
fn grant_answers() {
    let t = tokens_from_grant(Some("new".into()), None, Some(3600), 5, Some("old-rt".into())).unwrap();
    assert_eq!(t.refresh_token.as_deref(), Some("old-rt"));
    let t2 = tokens_from_grant(Some("new".into()), Some("new-rt".into()), None, 5, Some("old-rt".into())).unwrap();
    assert_eq!(t2.refresh_token.as_deref(), Some("new-rt"));
    match tokens_from_grant(None, None, None, 5, None) {
        Err(AppError::OAuth(m)) => assert_eq!(m, "No access_token in token response"),
        other => panic!("unexpected {other:?}"),
    }
    assert!(matches!(registered_client(None, None), Err(AppError::OAuth(_))));
    assert_eq!(registered_client(Some("c".into()), None).unwrap().0, "c");
}

#[test]
fn refresh_uses_stored_record() {
    let mut store = OAuthStore::new();
    assert!(matches!(refresh_request(&store, "a"), Err(AppError::OAuth(m)) if m == "No OAuth state for server"));
    store.set("a".into(), OAuthState { auth_server_metadata: metadata(None, vec![]), client_id: None, client_secret: None, tokens: None });
    assert!(matches!(refresh_request(&store, "a"), Err(AppError::OAuth(m)) if m == "No tokens stored"));
    store.set("a".into(), OAuthState { auth_server_metadata: metadata(None, vec![]), client_id: Some("c".into()), client_secret: None, tokens: Some(tokens(Some(1), 0)) });
    let q = refresh_request(&store, "a").unwrap();
    assert_eq!(q.refresh_token, "rt");
    assert_eq!(q.client_id, "c");
    let access = store_refreshed(&mut store, "a", OAuthTokens { access_token: "new".into(), refresh_token: Some("rt".into()), expires_in: None, obtained_at: 9 });
    assert_eq!(access, "new");
    assert_eq!(store.get("a").unwrap().tokens.as_ref().unwrap().access_token, "new");
}

#[test]
fn discovery_urls_use_the_origin() {
    let (pr, meta_url) = discovery_urls("https://mcp.example.com:8443/v1/mcp?x=1").unwrap();
    assert_eq!(pr, "https://mcp.example.com:8443/.well-known/oauth-protected-resource");
    assert_eq!(meta_url, "https://mcp.example.com:8443/.well-known/oauth-authorization-server");
    assert!(matches!(discovery_urls("nope"), Err(AppError::OAuth(_))));
    assert_eq!(auth_server_metadata_url("https://auth.example/tenant").unwrap(), "https://auth.example/.well-known/oauth-authorization-server");
}

fn pending() -> PendingAuthorization {
    PendingAuthorization {
        metadata: metadata(None, vec![]),
        client_id: "cid".into(),
        client_secret: None,
        redirect_uri: "http://127.0.0.1:9/oauth/callback".into(),
        code_verifier: "ver".into(),
        state: "nonce-1".into(),
    }
}

#[test]
fn callback_with_foreign_state_is_not_exchanged() {
    match on_callback(&pending(), "code", "nonce-2") {
        CallbackAction::Reject(AppError::OAuth(m)) => {
            assert_eq!(m, "OAuth state mismatch \u{2014} possible CSRF attack")
        }
        _ => panic!("a foreign state must be rejected"),
    }
    match on_callback(&pending(), "code", "nonce-1") {
        CallbackAction::Exchange { token_endpoint, form } => {
            assert_eq!(token_endpoint, "https://auth.example/token");
            assert_eq!(form[1], ("code".to_string(), "code".to_string()));
            assert_eq!(form[4], ("code_verifier".to_string(), "ver".to_string()));
            assert_eq!(form.len(), 5);
        }
        _ => panic!("the flow's own state leads to the exchange"),
    }
}

fn server(id: &str, transport: ServerTransport, url: Option<&str>) -> ServerConfig {
    ServerConfig {
        id: id.into(), name: id.into(), enabled: true, transport, command: None, args: None, env: None,
        url: url.map(String::from), headers: None, tags: None, status: None, last_connected: None,
        managed: None, managed_by: None, registry_name: None,
    }
}

#[test]
fn only_http_backends_with_a_url_are_authorized() {
    let mut state = AppState::new();
    state.servers.push(server("h", ServerTransport::Http, Some("https://x/mcp")));
    state.servers.push(server("p", ServerTransport::Stdio, None));
    state.servers.push(server("n", ServerTransport::Http, None));
    assert_eq!(oauth_target(&state, "h").unwrap(), "https://x/mcp");
    assert!(matches!(oauth_target(&state, "p"), Err(AppError::OAuth(m)) if m == "OAuth is only supported for HTTP servers"));
    assert!(matches!(oauth_target(&state, "n"), Err(AppError::OAuth(m)) if m == "No URL configured for server"));
    assert!(matches!(oauth_target(&state, "zz"), Err(AppError::ServerNotFound(_))));
}

#[test]
fn metadata_is_looked_for_at_the_listed_server_first() {
    let listed = vec!["https://auth.example".to_string(), "https://other".to_string()];
    assert_eq!(first_metadata_source(Some(&listed)), MetadataSource::AuthServer("https://auth.example".into()));
    assert_eq!(first_metadata_source(Some(&Vec::new())), MetadataSource::Origin);
    assert_eq!(first_metadata_source(None), MetadataSource::Origin);
}

#[test]
fn pkce_verifier_is_url_safe() {
    let p = generate_pkce();
    assert_eq!(p.code_verifier.len(), 43);
    assert!(p.code_verifier.chars().all(|c| c.is_ascii_alphanumeric() || c == '-' || c == '_'));
    assert_eq!(p.code_challenge.len(), 43);
    let enc = pkce_from_bytes(&[0xfb, 0xff, 0x01]);
    assert_eq!(enc.code_verifier, "-_8B");
}
