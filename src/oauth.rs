//! OAuth 2 authorization-code flow with PKCE: token expiry, the PKCE pair and
//! state nonce, client registration choice, the authorization URL, the token
//! forms and responses, and the refresh of stored tokens.
use base64::Engine;
use rand::Rng;
use sha2::Digest;
use vstd::prelude::*;

use crate::error::AppError;
use crate::lifecycle::{first_server, AppState};
use crate::state::{
    clone_opt, AuthServerMetadata, OAuthState, OAuthStore, OAuthTokens, ServerTransport,
};
use crate::text::{cat, chars_of, eq_chars, join, joined, string_views};

verus! {

/// Seconds before its expiry at which a token is already treated as expired.
pub const EXPIRY_MARGIN_SECS: u64 = 60;

/// A PKCE verifier and its S256 challenge.
pub struct PkceChallenge {
    pub code_verifier: String,
    pub code_challenge: String,
}

/// The character of a 6-bit value in the URL-safe base64 alphabet.
pub open spec fn b64_char(v: int) -> char {
    if v < 26 {
        (('A' as int) + v) as char
    } else if v < 52 {
        (('a' as int) + v - 26) as char
    } else if v < 62 {
        (('0' as int) + v - 52) as char
    } else if v == 62 {
        '-'
    } else {
        '_'
    }
}

/// Bytes in URL-safe base64 without padding: each three bytes give four
/// characters of six bits each; two or one trailing bytes give three or two.
pub open spec fn b64url_of(b: Seq<u8>) -> Seq<char>
    decreases b.len(),
{
    if b.len() >= 3 {
        let x = b[0] as int;
        let y = b[1] as int;
        let z = b[2] as int;
        seq![
            b64_char(x / 4),
            b64_char((x % 4) * 16 + y / 16),
            b64_char((y % 16) * 4 + z / 64),
            b64_char(z % 64),
        ] + b64url_of(b.subrange(3, b.len() as int))
    } else if b.len() == 2 {
        let x = b[0] as int;
        let y = b[1] as int;
        seq![b64_char(x / 4), b64_char((x % 4) * 16 + y / 16), b64_char((y % 16) * 4)]
    } else if b.len() == 1 {
        let x = b[0] as int;
        seq![b64_char(x / 4), b64_char((x % 4) * 16)]
    } else {
        Seq::empty()
    }
}

/// A character of the URL-safe base64 alphabet.
pub open spec fn url_safe_char(c: char) -> bool {
    ('A' <= c && c <= 'Z') || ('a' <= c && c <= 'z') || ('0' <= c && c <= '9') || c == '-' || c
        == '_'
}

/// The length of the encoding of `n` bytes.
pub open spec fn b64url_len(n: int) -> int {
    4 * (n / 3) + if n % 3 == 0 {
        0
    } else {
        n % 3 + 1
    }
}

proof fn lemma_b64_char(v: int)
    requires
        0 <= v < 64,
    ensures
        url_safe_char(b64_char(v)),
{
}

/// The encoding of `n` bytes has `b64url_len(n)` characters, all URL-safe.
pub proof fn lemma_b64url_shape(b: Seq<u8>)
    ensures
        b64url_of(b).len() == b64url_len(b.len() as int),
        forall|i: int| 0 <= i < b64url_of(b).len() ==> url_safe_char(#[trigger] b64url_of(b)[i]),
    decreases b.len(),
{
    if b.len() >= 3 {
        let x = b[0] as int;
        let y = b[1] as int;
        let z = b[2] as int;
        lemma_b64_char(x / 4);
        lemma_b64_char((x % 4) * 16 + y / 16);
        lemma_b64_char((y % 16) * 4 + z / 64);
        lemma_b64_char(z % 64);
        let rest = b.subrange(3, b.len() as int);
        lemma_b64url_shape(rest);
        let head = seq![
            b64_char(x / 4),
            b64_char((x % 4) * 16 + y / 16),
            b64_char((y % 16) * 4 + z / 64),
            b64_char(z % 64),
        ];
        assert(b64url_of(b) == head + b64url_of(rest));
        assert forall|i: int| 0 <= i < b64url_of(b).len() implies url_safe_char(
            #[trigger] b64url_of(b)[i],
        ) by {
            if i >= 4 {
                assert(b64url_of(b)[i] == b64url_of(rest)[i - 4]);
            }
        }
    } else if b.len() == 2 {
        let x = b[0] as int;
        let y = b[1] as int;
        lemma_b64_char(x / 4);
        lemma_b64_char((x % 4) * 16 + y / 16);
        lemma_b64_char((y % 16) * 4);
    } else if b.len() == 1 {
        let x = b[0] as int;
        lemma_b64_char(x / 4);
        lemma_b64_char((x % 4) * 16);
    }
}


/// Relies on sha2's `Sha256` over the UTF-8 encoding of the text.
pub uninterp spec fn sha256_of(s: Seq<char>) -> Seq<u8>;

/// Relies on url's `Url::parse`, `query_pairs_mut().append_pair` and
/// `to_string`: the URL with the pairs appended to its query.
pub uninterp spec fn url_with_query_of(url: Seq<char>, pairs: Seq<(Seq<char>, Seq<char>)>) -> Seq<char>;

/// Relies on url's `Url::parse`: whether the text parses as an absolute URL.
pub uninterp spec fn url_parses(url: Seq<char>) -> bool;

/// Relies on url's `Url::parse`, `scheme` and `authority`: `scheme://authority`.
pub uninterp spec fn origin_of(url: Seq<char>) -> Seq<char>;

/// Relies on base64's `URL_SAFE_NO_PAD.encode`: the URL-safe alphabet, no padding.
#[verifier::external_body]
fn b64url(b: &[u8]) -> (r: String)
    ensures
        r@ == b64url_of(b@),
{
    base64::engine::general_purpose::URL_SAFE_NO_PAD.encode(b)
}

/// Relies on sha2's `Sha256::digest`: a 32-byte digest of the UTF-8 text.
#[verifier::external_body]
fn sha256(s: &str) -> (r: Vec<u8>)
    ensures
        r@ == sha256_of(s@),
        r@.len() == 32,
{
    sha2::Sha256::digest(s.as_bytes()).to_vec()
}

/// Relies on rand's `rng().fill`: `n` random bytes.
#[verifier::external_body]
fn random_bytes(n: usize) -> (r: Vec<u8>)
    ensures
        r@.len() == n,
{
    let mut v = vec![0u8; n];
    rand::rng().fill(&mut v[..]);
    v
}

/// Relies on url's `Url::parse` and `query_pairs_mut().append_pair`; the
/// error is the parse error's text.
#[verifier::external_body]
fn append_query(url: &str, pairs: &Vec<(String, String)>) -> (r: Result<String, String>)
    ensures
        r is Ok <==> url_parses(url@),
        r matches Ok(s) ==> s@ == url_with_query_of(url@, pair_views(pairs@)),
{
    let mut parsed = url::Url::parse(url).map_err(|e| e.to_string())?;
    for (k, v) in pairs {
        parsed.query_pairs_mut().append_pair(k, v);
    }
    Ok(parsed.to_string())
}

/// Relies on url's `Url::parse`, `scheme` and `authority`; the error is the
/// parse error's text.
#[verifier::external_body]
fn url_origin(url: &str) -> (r: Result<String, String>)
    ensures
        r is Ok <==> url_parses(url@),
        r matches Ok(s) ==> s@ == origin_of(url@),
{
    let parsed = url::Url::parse(url).map_err(|e| e.to_string())?;
    Ok(format!("{}://{}", parsed.scheme(), parsed.authority()))
}

pub open spec fn pair_views(p: Seq<(String, String)>) -> Seq<(Seq<char>, Seq<char>)> {
    p.map_values(|x: (String, String)| (x.0@, x.1@))
}

/// A token is expired when it states an expiry and `now` is within the
/// margin of it or past it; a token without an expiry never expires.
pub open spec fn token_expired(t: OAuthTokens, now: int) -> bool {
    match t.expires_in {
        Some(e) => now + EXPIRY_MARGIN_SECS >= t.obtained_at + e,
        None => false,
    }
}

/// Whether `tokens` count as expired at `now` (seconds since the epoch).
pub fn is_token_expired_at(tokens: &OAuthTokens, now: u64) -> (r: bool)
    ensures
        r == token_expired(*tokens, now as int),
{
    match tokens.expires_in {
        None => false,
        Some(e) => now as u128 + EXPIRY_MARGIN_SECS as u128 >= tokens.obtained_at as u128 + e as u128,
    }
}

/// Whether `tokens` count as expired now.
pub fn is_token_expired(tokens: &OAuthTokens) -> (r: bool)
    ensures
        tokens.expires_in is None ==> !r,
        exists|now: u64| r == token_expired(*tokens, now as int),
{
    let now = crate::stats::unix_now();
    is_token_expired_at(tokens, now)
}

/// At the margin's boundary: a token that expires 59 seconds from now is
/// expired, one that expires 61 seconds from now is not.
pub proof fn lemma_expiry_boundary(t: OAuthTokens, now: int)
    requires
        t.expires_in is Some,
    ensures
        t.obtained_at + t.expires_in.unwrap() == now + 59 ==> token_expired(t, now),
        t.obtained_at + t.expires_in.unwrap() == now + 60 ==> token_expired(t, now),
        t.obtained_at + t.expires_in.unwrap() == now + 61 ==> !token_expired(t, now),
{
}

/// The PKCE pair for a verifier drawn from `random`: the verifier is the
/// bytes in URL-safe base64, the challenge the same encoding of its SHA-256.
pub fn pkce_from_bytes(random: &[u8]) -> (r: PkceChallenge)
    ensures
        r.code_verifier@ == b64url_of(random@),
        r.code_challenge@ == b64url_of(sha256_of(r.code_verifier@)),
        sha256_of(r.code_verifier@).len() == 32,
{
    let code_verifier = b64url(random);
    let digest = sha256(code_verifier.as_str());
    let code_challenge = b64url(digest.as_slice());
    PkceChallenge { code_verifier, code_challenge }
}

/// A fresh PKCE pair from 32 random bytes.
pub fn generate_pkce() -> (r: PkceChallenge)
    ensures
        exists|b: Seq<u8>| b.len() == 32 && r.code_verifier@ == b64url_of(b),
        r.code_verifier@.len() == 43,
        forall|i: int| 0 <= i < 43 ==> url_safe_char(#[trigger] r.code_verifier@[i]),
        r.code_challenge@ == b64url_of(sha256_of(r.code_verifier@)),
        r.code_challenge@.len() == 43,
{
    let bytes = random_bytes(32);
    let r = pkce_from_bytes(bytes.as_slice());
    proof {
        lemma_b64url_shape(bytes@);
        lemma_b64url_shape(sha256_of(r.code_verifier@));
    }
    r
}

/// A fresh anti-forgery state value from 16 random bytes.
pub fn generate_state_nonce() -> (r: String)
    ensures
        exists|b: Seq<u8>| b.len() == 16 && r@ == b64url_of(b),
        r@.len() == 22,
        forall|i: int| 0 <= i < 22 ==> url_safe_char(#[trigger] r@[i]),
{
    let bytes = random_bytes(16);
    proof {
        lemma_b64url_shape(bytes@);
    }
    b64url(bytes.as_slice())
}

/// The callback's `state` must be the one generated for the flow; any other
/// value is rejected before a code is exchanged.
pub fn verify_callback_state(expected: &str, returned: &str) -> (r: Result<(), AppError>)
    ensures
        expected@ == returned@ <==> r is Ok,
        r matches Err(e) ==> e matches AppError::OAuth(m) && m@
            == "OAuth state mismatch \u{2014} possible CSRF attack"@,
{
    if eq_chars(chars_of(expected).as_slice(), chars_of(returned).as_slice()) {
        Ok(())
    } else {
        Err(AppError::OAuth("OAuth state mismatch \u{2014} possible CSRF attack".to_owned()))
    }
}

/// How the flow gets a client id.
#[derive(Debug, Clone)]
pub enum ClientPlan {
    /// Use the one stored for the backend.
    Stored { client_id: String, client_secret: Option<String> },
    /// Register a public client at this endpoint.
    Register { endpoint: String },
}

pub open spec fn has_stored_client(stored: Option<&OAuthState>) -> bool {
    stored matches Some(s) && s.client_id is Some
}

/// A stored client id is used; without one, a client is registered at the
/// registration endpoint; with neither the flow cannot go on.
pub fn choose_client(stored: Option<&OAuthState>, metadata: &AuthServerMetadata) -> (r: Result<
    ClientPlan,
    AppError,
>)
    ensures
        has_stored_client(stored) ==> (r matches Ok(ClientPlan::Stored { client_id, client_secret })
            && client_id == stored.unwrap().client_id.unwrap() && client_secret
            == stored.unwrap().client_secret),
        !has_stored_client(stored) ==> match metadata.registration_endpoint {
            Some(ep) => r matches Ok(ClientPlan::Register { endpoint }) && endpoint == ep,
            None => r matches Err(AppError::OAuth(m)) && m@ == no_client_text(),
        },
{
    if let Some(s) = stored {
        if let Some(id) = &s.client_id {
            return Ok(
                ClientPlan::Stored { client_id: id.clone(), client_secret: clone_opt(&s.client_secret) },
            );
        }
    }
    match &metadata.registration_endpoint {
        Some(ep) => Ok(ClientPlan::Register { endpoint: ep.clone() }),
        None => Err(AppError::OAuth(no_client_message())),
    }
}

pub open spec fn no_client_text() -> Seq<char> {
    "Server has no registration_endpoint and no client_id is stored. Cannot authenticate without a client_id."@
}

fn no_client_message() -> (r: String)
    ensures
        r@ == no_client_text(),
{
    "Server has no registration_endpoint and no client_id is stored. Cannot authenticate without a client_id.".to_owned()
}

pub open spec fn pair(k: Seq<char>, v: Seq<char>) -> (Seq<char>, Seq<char>) {
    (k, v)
}

/// The query of the authorization URL: code flow, client, redirect, S256
/// challenge and state, and the supported scopes when there are any.
pub open spec fn authorization_query(
    client_id: Seq<char>,
    redirect_uri: Seq<char>,
    challenge: Seq<char>,
    state: Seq<char>,
    scopes: Seq<Seq<char>>,
) -> Seq<(Seq<char>, Seq<char>)> {
    seq![
        pair("response_type"@, "code"@),
        pair("client_id"@, client_id),
        pair("redirect_uri"@, redirect_uri),
        pair("code_challenge"@, challenge),
        pair("code_challenge_method"@, "S256"@),
        pair("state"@, state),
    ] + if scopes.len() > 0 {
        seq![pair("scope"@, joined(scopes, " "@))]
    } else {
        Seq::empty()
    }
}

fn push_pair(v: &mut Vec<(String, String)>, k: &str, val: &str)
    ensures
        pair_views(final(v)@) == pair_views(old(v)@).push(pair(k@, val@)),
{
    let ghost before = pair_views(v@);
    v.push((k.to_owned(), val.to_owned()));
    assert(pair_views(v@) =~= before.push(pair(k@, val@)));
}

/// The query pairs of the authorization URL (see `authorization_query`).
pub fn authorization_params(
    metadata: &AuthServerMetadata,
    client_id: &str,
    redirect_uri: &str,
    pkce: &PkceChallenge,
    state: &str,
) -> (r: Vec<(String, String)>)
    ensures
        pair_views(r@) == authorization_query(
            client_id@,
            redirect_uri@,
            pkce.code_challenge@,
            state@,
            string_views(metadata.scopes_supported@),
        ),
{
    let mut v: Vec<(String, String)> = Vec::new();
    assert(pair_views(v@) =~= Seq::<(Seq<char>, Seq<char>)>::empty());
    push_pair(&mut v, "response_type", "code");
    push_pair(&mut v, "client_id", client_id);
    push_pair(&mut v, "redirect_uri", redirect_uri);
    push_pair(&mut v, "code_challenge", pkce.code_challenge.as_str());
    push_pair(&mut v, "code_challenge_method", "S256");
    push_pair(&mut v, "state", state);
    let ghost six = pair_views(v@);
    if metadata.scopes_supported.len() > 0 {
        let scopes = join(&metadata.scopes_supported, " ");
        push_pair(&mut v, "scope", scopes.as_str());
        assert(pair_views(v@) =~= authorization_query(
            client_id@,
            redirect_uri@,
            pkce.code_challenge@,
            state@,
            string_views(metadata.scopes_supported@),
        ));
    } else {
        assert(pair_views(v@) =~= authorization_query(
            client_id@,
            redirect_uri@,
            pkce.code_challenge@,
            state@,
            string_views(metadata.scopes_supported@),
        ));
    }
    v
}

/// The URL to send the user to: the authorization endpoint with the
/// authorization query appended.
pub fn build_authorization_url(
    metadata: &AuthServerMetadata,
    client_id: &str,
    redirect_uri: &str,
    pkce: &PkceChallenge,
    state: &str,
) -> (r: Result<String, AppError>)
    ensures
        r matches Ok(u) ==> u@ == url_with_query_of(
            metadata.authorization_endpoint@,
            authorization_query(
                client_id@,
                redirect_uri@,
                pkce.code_challenge@,
                state@,
                string_views(metadata.scopes_supported@),
            ),
        ),
        r is Ok <==> url_parses(metadata.authorization_endpoint@),
        r matches Err(e) ==> e is OAuth,
{
    let params = authorization_params(metadata, client_id, redirect_uri, pkce, state);
    match append_query(metadata.authorization_endpoint.as_str(), &params) {
        Ok(u) => Ok(u),
        Err(e) => Err(AppError::OAuth(cat("Invalid authorization_endpoint URL: ", e.as_str()))),
    }
}

/// The form of an authorization-code exchange.
pub open spec fn exchange_form_spec(
    code: Seq<char>,
    redirect_uri: Seq<char>,
    client_id: Seq<char>,
    code_verifier: Seq<char>,
    client_secret: Option<Seq<char>>,
) -> Seq<(Seq<char>, Seq<char>)> {
    seq![
        pair("grant_type"@, "authorization_code"@),
        pair("code"@, code),
        pair("redirect_uri"@, redirect_uri),
        pair("client_id"@, client_id),
        pair("code_verifier"@, code_verifier),
    ] + match client_secret {
        Some(s) => seq![pair("client_secret"@, s)],
        None => Seq::empty(),
    }
}

pub open spec fn opt_view(o: Option<&str>) -> Option<Seq<char>> {
    match o {
        Some(s) => Some(s@),
        None => None,
    }
}

/// The form posted to the token endpoint to exchange a code.
pub fn exchange_form(
    code: &str,
    redirect_uri: &str,
    client_id: &str,
    code_verifier: &str,
    client_secret: Option<&str>,
) -> (r: Vec<(String, String)>)
    ensures
        pair_views(r@) == exchange_form_spec(
            code@,
            redirect_uri@,
            client_id@,
            code_verifier@,
            opt_view(client_secret),
        ),
{
    let mut v: Vec<(String, String)> = Vec::new();
    assert(pair_views(v@) =~= Seq::<(Seq<char>, Seq<char>)>::empty());
    push_pair(&mut v, "grant_type", "authorization_code");
    push_pair(&mut v, "code", code);
    push_pair(&mut v, "redirect_uri", redirect_uri);
    push_pair(&mut v, "client_id", client_id);
    push_pair(&mut v, "code_verifier", code_verifier);
    if let Some(s) = client_secret {
        push_pair(&mut v, "client_secret", s);
    }
    assert(pair_views(v@) =~= exchange_form_spec(
        code@,
        redirect_uri@,
        client_id@,
        code_verifier@,
        opt_view(client_secret),
    ));
    v
}

/// The form of a refresh-token grant.
pub open spec fn refresh_form_spec(
    refresh_token: Seq<char>,
    client_id: Seq<char>,
    client_secret: Option<Seq<char>>,
) -> Seq<(Seq<char>, Seq<char>)> {
    seq![
        pair("grant_type"@, "refresh_token"@),
        pair("refresh_token"@, refresh_token),
        pair("client_id"@, client_id),
    ] + match client_secret {
        Some(s) => seq![pair("client_secret"@, s)],
        None => Seq::empty(),
    }
}

/// The form posted to the token endpoint to refresh a token.
pub fn refresh_form(refresh_token: &str, client_id: &str, client_secret: Option<&str>) -> (r: Vec<
    (String, String),
>)
    ensures
        pair_views(r@) == refresh_form_spec(refresh_token@, client_id@, opt_view(client_secret)),
{
    let mut v: Vec<(String, String)> = Vec::new();
    assert(pair_views(v@) =~= Seq::<(Seq<char>, Seq<char>)>::empty());
    push_pair(&mut v, "grant_type", "refresh_token");
    push_pair(&mut v, "refresh_token", refresh_token);
    push_pair(&mut v, "client_id", client_id);
    if let Some(s) = client_secret {
        push_pair(&mut v, "client_secret", s);
    }
    assert(pair_views(v@) =~= refresh_form_spec(refresh_token@, client_id@, opt_view(client_secret)));
    v
}

/// The tokens that a token endpoint's answer gives. An answer without an
/// access token is an error; a refresh answer without a refresh token keeps
/// the one used (`previous_refresh`).
pub fn tokens_from_grant(
    access_token: Option<String>,
    refresh_token: Option<String>,
    expires_in: Option<u64>,
    obtained_at: u64,
    previous_refresh: Option<String>,
) -> (r: Result<OAuthTokens, AppError>)
    ensures
        match access_token {
            Some(a) => r matches Ok(t) && t.access_token == a && t.refresh_token == (
            if refresh_token is Some {
                refresh_token
            } else {
                previous_refresh
            }) && t.expires_in == expires_in && t.obtained_at == obtained_at,
            None => r matches Err(AppError::OAuth(m)) && m@ == (if previous_refresh is Some {
                "No access_token in refresh response"@
            } else {
                "No access_token in token response"@
            }),
        },
{
    match access_token {
        Some(a) => {
            let refresh = match refresh_token {
                Some(t) => Some(t),
                None => previous_refresh,
            };
            Ok(OAuthTokens { access_token: a, refresh_token: refresh, expires_in, obtained_at })
        },
        None => {
            if previous_refresh.is_some() {
                Err(AppError::OAuth("No access_token in refresh response".to_owned()))
            } else {
                Err(AppError::OAuth("No access_token in token response".to_owned()))
            }
        },
    }
}

/// The client a registration endpoint answered with; a client id is required.
pub fn registered_client(client_id: Option<String>, client_secret: Option<String>) -> (r: Result<
    (String, Option<String>),
    AppError,
>)
    ensures
        match client_id {
            Some(id) => r == Ok::<(String, Option<String>), AppError>((id, client_secret)),
            None => r matches Err(AppError::OAuth(m)) && m@
                == "No client_id in registration response"@,
        },
{
    match client_id {
        Some(id) => Ok((id, client_secret)),
        None => Err(AppError::OAuth("No client_id in registration response".to_owned())),
    }
}

/// What a token refresh needs from the store.
#[derive(Debug, Clone)]
pub struct RefreshRequest {
    pub metadata: AuthServerMetadata,
    pub client_id: String,
    pub client_secret: Option<String>,
    pub refresh_token: String,
}

/// What a refresh of `server_id`'s token would send, or why it cannot be done.
pub fn refresh_request(store: &OAuthStore, server_id: &str) -> (r: Result<RefreshRequest, AppError>)
    requires
        store.wf(),
    ensures
        !store@.contains_key(server_id@) ==> (r matches Err(AppError::OAuth(m)) && m@
            == "No OAuth state for server"@),
        store@.contains_key(server_id@) ==> {
            let s = store@[server_id@];
            match s.tokens {
                None => r matches Err(AppError::OAuth(m)) && m@ == "No tokens stored"@,
                Some(t) => match t.refresh_token {
                    None => r matches Err(AppError::OAuth(m)) && m@
                        == "No refresh token available"@,
                    Some(rt) => r matches Ok(q) && q.refresh_token == rt && q.metadata.same_as(
                        &s.auth_server_metadata) && q.client_secret == s.client_secret && (
                    match s.client_id {
                        Some(c) => q.client_id == c,
                        None => q.client_id@ == Seq::<char>::empty(),
                    }),
                },
            }
        },
{
    let s = match store.get(server_id) {
        Some(s) => s,
        None => {
            return Err(AppError::OAuth("No OAuth state for server".to_owned()));
        },
    };
    let t = match &s.tokens {
        Some(t) => t,
        None => {
            return Err(AppError::OAuth("No tokens stored".to_owned()));
        },
    };
    let rt = match &t.refresh_token {
        Some(rt) => rt.clone(),
        None => {
            return Err(AppError::OAuth("No refresh token available".to_owned()));
        },
    };
    let client_id = match &s.client_id {
        Some(c) => c.clone(),
        None => String::new(),
    };
    Ok(RefreshRequest {
        metadata: s.auth_server_metadata.copy(),
        client_id,
        client_secret: clone_opt(&s.client_secret),
        refresh_token: rt,
    })
}

/// The well-known URL of the protected-resource document at an origin.
pub open spec fn protected_resource_url(origin: Seq<char>) -> Seq<char> {
    origin + "/.well-known/oauth-protected-resource"@
}

/// The well-known URL of the authorization-server metadata at an origin.
pub open spec fn auth_server_url(origin: Seq<char>) -> Seq<char> {
    origin + "/.well-known/oauth-authorization-server"@
}

/// The two discovery URLs for a backend: its protected-resource document,
/// then, as the fallback, authorization-server metadata on its own origin.
pub fn discovery_urls(server_url: &str) -> (r: Result<(String, String), AppError>)
    ensures
        r matches Ok(p) ==> p.0@ == protected_resource_url(origin_of(server_url@)) && p.1@
            == auth_server_url(origin_of(server_url@)),
        r is Ok <==> url_parses(server_url@),
        r matches Err(e) ==> e is OAuth,
{
    match url_origin(server_url) {
        Ok(origin) => Ok(
            (
                cat(origin.as_str(), "/.well-known/oauth-protected-resource"),
                cat(origin.as_str(), "/.well-known/oauth-authorization-server"),
            ),
        ),
        Err(e) => Err(AppError::OAuth(cat("Invalid server URL: ", e.as_str()))),
    }
}

/// The metadata URL of the authorization server at `base_url`'s origin.
pub fn auth_server_metadata_url(base_url: &str) -> (r: Result<String, AppError>)
    ensures
        r matches Ok(u) ==> u@ == auth_server_url(origin_of(base_url@)),
        r is Ok <==> url_parses(base_url@),
        r matches Err(e) ==> e is OAuth,
{
    match url_origin(base_url) {
        Ok(origin) => Ok(cat(origin.as_str(), "/.well-known/oauth-authorization-server")),
        Err(e) => Err(AppError::OAuth(cat("Invalid auth server URL: ", e.as_str()))),
    }
}

/// Stores refreshed tokens for a backend that has a record; returns the new
/// access token for immediate use.
pub fn store_refreshed(store: &mut OAuthStore, server_id: &str, tokens: OAuthTokens) -> (r: String)
    requires
        old(store).wf(),
    ensures
        final(store).wf(),
        r == tokens.access_token,
        old(store)@.contains_key(server_id@) ==> final(store)@ == old(store)@.insert(
            server_id@,
            OAuthState { tokens: Some(tokens), ..old(store)@[server_id@] },
        ),
        !old(store)@.contains_key(server_id@) ==> final(store)@ == old(store)@,
{
    let access = tokens.access_token.clone();
    match store.remove(server_id) {
        Some(s) => {
            let updated = OAuthState { tokens: Some(tokens), ..s };
            store.set(server_id.to_owned(), updated);
            assert(final(store)@ =~= old(store)@.insert(server_id@, updated));
        },
        None => {},
    }
    access
}

/// The URL of the backend to authorize: it must be known, reached over
/// HTTP, and have a URL.
pub open spec fn oauth_target_ok(state: AppState, id: Seq<char>, r: Result<String, AppError>) -> bool {
    let i = first_server(state.servers@, id);
    if i < 0 {
        r matches Err(AppError::ServerNotFound(m)) && m@ == id
    } else if state.servers@[i].transport != ServerTransport::Http {
        r matches Err(AppError::OAuth(m)) && m@ == "OAuth is only supported for HTTP servers"@
    } else {
        match state.servers@[i].url {
            Some(u) => r == Ok::<String, AppError>(u),
            None => r matches Err(AppError::OAuth(m)) && m@ == "No URL configured for server"@,
        }
    }
}

/// The URL of the backend `id` that is to be authorized.
pub fn oauth_target(state: &AppState, id: &str) -> (r: Result<String, AppError>)
    ensures
        oauth_target_ok(*state, id@, r),
{
    let i = match state.find_server(id) {
        None => {
            return Err(AppError::ServerNotFound(id.to_owned()));
        },
        Some(i) => i,
    };
    let s = &state.servers[i];
    if s.transport != ServerTransport::Http {
        return Err(AppError::OAuth("OAuth is only supported for HTTP servers".to_owned()));
    }
    match &s.url {
        Some(u) => Ok(u.clone()),
        None => Err(AppError::OAuth("No URL configured for server".to_owned())),
    }
}

/// An authorization waiting for the browser's redirect.
pub struct PendingAuthorization {
    pub metadata: AuthServerMetadata,
    pub client_id: String,
    pub client_secret: Option<String>,
    pub redirect_uri: String,
    pub code_verifier: String,
    /// The anti-forgery value sent with the authorization request.
    pub state: String,
}

/// What to do with the redirect's code and state.
pub enum CallbackAction {
    /// Post this form to the token endpoint.
    Exchange { token_endpoint: String, form: Vec<(String, String)> },
    /// Stop: the redirect does not belong to this flow.
    Reject(AppError),
}

/// A redirect with the flow's own state leads to the code exchange with the
/// PKCE verifier; any other state is rejected and nothing is exchanged.
pub open spec fn callback_ok(p: PendingAuthorization, code: Seq<char>, returned: Seq<char>, r: CallbackAction) -> bool {
    if returned == p.state@ {
        r matches CallbackAction::Exchange { token_endpoint, form } && token_endpoint
            == p.metadata.token_endpoint && pair_views(form@) == exchange_form_spec(
            code,
            p.redirect_uri@,
            p.client_id@,
            p.code_verifier@,
            match p.client_secret {
                Some(s) => Some(s@),
                None => None,
            },
        )
    } else {
        r matches CallbackAction::Reject(e) && e matches AppError::OAuth(m) && m@
            == "OAuth state mismatch \u{2014} possible CSRF attack"@
    }
}

/// Decides on the browser's redirect (see `callback_ok`).
pub fn on_callback(p: &PendingAuthorization, code: &str, returned_state: &str) -> (r: CallbackAction)
    ensures
        callback_ok(*p, code@, returned_state@, r),
{
    match verify_callback_state(p.state.as_str(), returned_state) {
        Err(e) => CallbackAction::Reject(e),
        Ok(()) => {
            let secret: Option<&str> = match &p.client_secret {
                Some(s) => Some(s.as_str()),
                None => None,
            };
            let form = exchange_form(
                code,
                p.redirect_uri.as_str(),
                p.client_id.as_str(),
                p.code_verifier.as_str(),
                secret,
            );
            CallbackAction::Exchange { token_endpoint: p.metadata.token_endpoint.clone(), form }
        },
    }
}

/// A redirect whose state differs from the one generated for the flow never
/// leads to a token exchange.
pub proof fn lemma_mismatch_never_exchanges(
    p: PendingAuthorization,
    code: Seq<char>,
    returned: Seq<char>,
    r: CallbackAction,
)
    requires
        callback_ok(p, code, returned, r),
        returned != p.state@,
    ensures
        !(r is Exchange),
{
}

/// Where authorization-server metadata is looked for first.
#[derive(Debug, Clone, PartialEq, Eq)]
pub enum MetadataSource {
    /// The first authorization server that the protected-resource document lists.
    AuthServer(String),
    /// The backend's own origin.
    Origin,
}

/// The first place to fetch metadata from, given the authorization servers
/// that the protected-resource document listed (`None` when that document
/// could not be had): the first of them, else the backend's origin. When
/// the listed server fails, the backend's origin is tried next.
pub fn first_metadata_source(listed: Option<&Vec<String>>) -> (r: MetadataSource)
    ensures
        (listed matches Some(l) && l@.len() > 0) ==> r == MetadataSource::AuthServer(
            listed.unwrap()@[0],
        ),
        !(listed matches Some(l) && l@.len() > 0) ==> r == MetadataSource::Origin,
{
    match listed {
        Some(l) => {
            if l.len() > 0 {
                MetadataSource::AuthServer(l[0].clone())
            } else {
                MetadataSource::Origin
            }
        },
        None => MetadataSource::Origin,
    }
}

} // verus!
