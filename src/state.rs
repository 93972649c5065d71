//! Configuration and connection data: backends, their status and tools, and
//! the OAuth records kept per backend.
use vstd::prelude::*;

use crate::table::KeyedTable;

verus! {

/// How a backend is reached.
#[derive(Debug, Clone, Copy, PartialEq, Eq, Structural)]
pub enum ServerTransport {
    /// A spawned local process speaking over its standard streams.
    Stdio,
    /// A remote endpoint over HTTP.
    Http,
}

/// Where a backend stands in its connection lifecycle.
#[derive(Debug, Clone, Copy, PartialEq, Eq, Structural)]
pub enum ServerStatus {
    Connected,
    Connecting,
    Disconnected,
    Error,
}

/// A configured backend.
#[derive(Debug, Clone)]
pub struct ServerConfig {
    pub id: String,
    pub name: String,
    pub enabled: bool,
    pub transport: ServerTransport,
    pub command: Option<String>,
    pub args: Option<Vec<String>>,
    /// Extra environment variables of the process, as name and value.
    pub env: Option<Vec<(String, String)>>,
    pub url: Option<String>,
    /// Extra request headers, as name and value.
    pub headers: Option<Vec<(String, String)>>,
    pub tags: Option<Vec<String>>,
    pub status: Option<ServerStatus>,
    pub last_connected: Option<String>,
    pub managed: Option<bool>,
    pub managed_by: Option<String>,
    pub registry_name: Option<String>,
}

/// What an operator gives to add or update a backend.
#[derive(Debug, Clone)]
pub struct ServerConfigInput {
    pub name: String,
    pub enabled: bool,
    pub transport: ServerTransport,
    pub command: Option<String>,
    pub args: Option<Vec<String>>,
    pub env: Option<Vec<(String, String)>>,
    pub url: Option<String>,
    pub headers: Option<Vec<(String, String)>>,
    pub tags: Option<Vec<String>>,
}

/// A tool's input schema: the JSON document as text, and what the gateway
/// reads from it (each property's name and declared type, and the names of
/// the required ones).
#[derive(Debug, Clone)]
pub struct ToolSchema {
    pub json: String,
    pub properties: Vec<(String, Option<String>)>,
    pub required: Vec<String>,
}

/// A tool as a backend lists it.
#[derive(Debug, Clone)]
pub struct McpToolDef {
    pub name: String,
    pub title: Option<String>,
    pub description: Option<String>,
    pub input_schema: Option<ToolSchema>,
}

/// A discovered tool, tagged with the backend that owns it.
#[derive(Debug, Clone)]
pub struct McpTool {
    pub name: String,
    pub title: Option<String>,
    pub description: Option<String>,
    pub input_schema: Option<ToolSchema>,
    pub server_id: String,
    pub server_name: String,
}

/// The tools of one connected backend.
#[derive(Debug, Clone)]
pub struct ConnectionState {
    pub tools: Vec<McpTool>,
}

/// A log line kept until the user interface is ready to show it.
#[derive(Debug, Clone)]
pub struct BufferedLog {
    pub server_id: String,
    pub level: String,
    pub message: String,
}

/// An access token and what came with it.
#[derive(Debug, Clone)]
pub struct OAuthTokens {
    pub access_token: String,
    pub refresh_token: Option<String>,
    /// Seconds the access token is valid for, counted from `obtained_at`.
    pub expires_in: Option<u64>,
    /// When the tokens were obtained, in seconds since the Unix epoch.
    pub obtained_at: u64,
}

/// An authorization server's metadata.
#[derive(Debug, Clone)]
pub struct AuthServerMetadata {
    pub issuer: String,
    pub authorization_endpoint: String,
    pub token_endpoint: String,
    pub registration_endpoint: Option<String>,
    pub scopes_supported: Vec<String>,
    pub code_challenge_methods_supported: Vec<String>,
}

/// What is known of one backend's authorization.
#[derive(Debug, Clone)]
pub struct OAuthState {
    pub auth_server_metadata: AuthServerMetadata,
    pub client_id: Option<String>,
    pub client_secret: Option<String>,
    pub tokens: Option<OAuthTokens>,
}

/// The OAuth records, by backend id.
pub struct OAuthStore {
    entries: KeyedTable<OAuthState>,
}

impl View for OAuthStore {
    type V = Map<Seq<char>, OAuthState>;

    closed spec fn view(&self) -> Map<Seq<char>, OAuthState> {
        self.entries@
    }
}

impl OAuthStore {
    pub closed spec fn wf(&self) -> bool {
        self.entries.wf()
    }

    pub fn new() -> (r: Self)
        ensures
            r.wf(),
            r@ == Map::<Seq<char>, OAuthState>::empty(),
    {
        OAuthStore { entries: KeyedTable::new() }
    }

    pub fn get(&self, server_id: &str) -> (r: Option<&OAuthState>)
        requires
            self.wf(),
        ensures
            match r {
                Some(s) => self@.contains_key(server_id@) && *s == self@[server_id@],
                None => !self@.contains_key(server_id@),
            },
    {
        self.entries.get(server_id)
    }

    pub fn set(&mut self, server_id: String, state: OAuthState)
        requires
            old(self).wf(),
        ensures
            final(self).wf(),
            final(self)@ == old(self)@.insert(server_id@, state),
    {
        self.entries.insert(server_id, state);
    }

    pub fn remove(&mut self, server_id: &str) -> (r: Option<OAuthState>)
        requires
            old(self).wf(),
        ensures
            final(self).wf(),
            final(self)@ == old(self)@.remove(server_id@),
            r == (if old(self)@.contains_key(server_id@) {
                Some(old(self)@[server_id@])
            } else {
                None
            }),
    {
        self.entries.remove(server_id)
    }

    /// The records themselves, for updates in place.
    pub fn entries_mut(&mut self) -> (r: &mut KeyedTable<OAuthState>)
        requires
            old(self).wf(),
        ensures
            r.wf(),
            r@ == old(self)@,
            final(r).wf() ==> final(self).wf(),
            final(self)@ == final(r)@,
    {
        &mut self.entries
    }
}

/// A copy of an optional string.
pub fn clone_opt(o: &Option<String>) -> (r: Option<String>)
    ensures
        r == *o,
{
    match o {
        Some(s) => Some(s.clone()),
        None => None,
    }
}

/// A copy of a list of strings.
pub fn clone_strings(v: &Vec<String>) -> (r: Vec<String>)
    ensures
        r@ == v@,
{
    let mut r: Vec<String> = Vec::new();
    let mut i: usize = 0;
    while i < v.len()
        invariant
            i <= v@.len(),
            r@ == v@.subrange(0, i as int),
        decreases v@.len() - i,
    {
        r.push(v[i].clone());
        assert(r@ =~= v@.subrange(0, i + 1));
        i = i + 1;
    }
    assert(v@.subrange(0, i as int) =~= v@);
    r
}

/// A copy of a list of name/value pairs.
pub fn clone_pairs(v: &Vec<(String, String)>) -> (r: Vec<(String, String)>)
    ensures
        r@ == v@,
{
    let mut r: Vec<(String, String)> = Vec::new();
    let mut i: usize = 0;
    while i < v.len()
        invariant
            i <= v@.len(),
            r@ == v@.subrange(0, i as int),
        decreases v@.len() - i,
    {
        r.push((v[i].0.clone(), v[i].1.clone()));
        assert(r@ =~= v@.subrange(0, i + 1));
        i = i + 1;
    }
    assert(v@.subrange(0, i as int) =~= v@);
    r
}

impl AuthServerMetadata {
    /// The two hold the same values.
    pub open spec fn same_as(&self, o: &AuthServerMetadata) -> bool {
        self.issuer == o.issuer && self.authorization_endpoint == o.authorization_endpoint
            && self.token_endpoint == o.token_endpoint && self.registration_endpoint
            == o.registration_endpoint && self.scopes_supported@ == o.scopes_supported@
            && self.code_challenge_methods_supported@ == o.code_challenge_methods_supported@
    }

    /// A copy of the metadata.
    pub fn copy(&self) -> (r: Self)
        ensures
            r.same_as(self),
    {
        AuthServerMetadata {
            issuer: self.issuer.clone(),
            authorization_endpoint: self.authorization_endpoint.clone(),
            token_endpoint: self.token_endpoint.clone(),
            registration_endpoint: clone_opt(&self.registration_endpoint),
            scopes_supported: clone_strings(&self.scopes_supported),
            code_challenge_methods_supported: clone_strings(&self.code_challenge_methods_supported),
        }
    }
}

} // verus!
