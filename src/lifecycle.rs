//! The connection lifecycle of each backend — Disconnected, Connecting,
//! Connected or Error — and the registry of live clients.
use vstd::prelude::*;

use crate::error::AppError;
use crate::oauth::{is_token_expired_at, token_expired};
use crate::state::{
    clone_opt, clone_pairs, clone_strings, BufferedLog, ConnectionState, McpTool, McpToolDef,
    OAuthState, ServerConfig, ServerStatus, ServerTransport,
};
use crate::table::KeyedTable;

verus! {

/// `i` is the index of the first backend with id `id`.
pub open spec fn is_first_server(servers: Seq<ServerConfig>, id: Seq<char>, i: int) -> bool {
    0 <= i < servers.len() && servers[i].id@ == id && forall|j: int|
        0 <= j < i ==> #[trigger] servers[j].id@ != id
}

/// The index of the first backend with id `id`, or -1.
pub open spec fn first_server(servers: Seq<ServerConfig>, id: Seq<char>) -> int {
    if exists|i: int| is_first_server(servers, id, i) {
        choose|i: int| is_first_server(servers, id, i)
    } else {
        -1
    }
}

/// A backend that is connected or on its way there.
pub open spec fn is_active(s: Option<ServerStatus>) -> bool {
    s == Some(ServerStatus::Connected) || s == Some(ServerStatus::Connecting)
}

pub open spec fn with_status(s: ServerConfig, st: ServerStatus) -> ServerConfig {
    ServerConfig { status: Some(st), ..s }
}

/// The backends with the first one of id `id` (if any) set to `st`.
pub open spec fn set_status(servers: Seq<ServerConfig>, id: Seq<char>, st: ServerStatus) -> Seq<
    ServerConfig,
> {
    let i = first_server(servers, id);
    if i >= 0 {
        servers.update(i, with_status(servers[i], st))
    } else {
        servers
    }
}

/// Where a backend is to be reached, read from its configuration.
#[derive(Debug, Clone)]
pub struct ConnectPlan {
    pub transport: ServerTransport,
    pub command: Option<String>,
    pub args: Vec<String>,
    pub env: Vec<(String, String)>,
    pub url: Option<String>,
    pub headers: Vec<(String, String)>,
}

/// The plan holds what the configuration holds (absent lists as empty).
pub open spec fn plan_of(p: ConnectPlan, s: ServerConfig) -> bool {
    &&& p.transport == s.transport
    &&& p.command == s.command
    &&& p.url == s.url
    &&& p.args@ == match s.args {
        Some(a) => a@,
        None => Seq::empty(),
    }
    &&& p.env@ == match s.env {
        Some(e) => e@,
        None => Seq::empty(),
    }
    &&& p.headers@ == match s.headers {
        Some(h) => h@,
        None => Seq::empty(),
    }
}

/// What to do about the access token before an HTTP connect.
#[derive(Debug, Clone, PartialEq, Eq)]
pub enum TokenStep {
    /// Use this stored, unexpired access token.
    Use(String),
    /// The stored token has expired; try to refresh it first.
    Refresh,
    /// Connect without a token.
    NoToken,
}

/// Which token to connect with: a stored unexpired one, else a refresh when a
/// refresh token is stored, else none.
pub open spec fn token_step_spec(stored: Option<OAuthState>, now: int) -> TokenStep {
    match stored {
        Some(s) => match s.tokens {
            Some(t) => if !token_expired(t, now) {
                TokenStep::Use(t.access_token)
            } else if t.refresh_token is Some {
                TokenStep::Refresh
            } else {
                TokenStep::NoToken
            },
            None => TokenStep::NoToken,
        },
        None => TokenStep::NoToken,
    }
}

pub open spec fn opt_deref(o: Option<&OAuthState>) -> Option<OAuthState> {
    match o {
        Some(s) => Some(*s),
        None => None,
    }
}

/// Decides the token step for an HTTP backend's stored OAuth record at `now`.
pub fn resolve_token_step(stored: Option<&OAuthState>, now: u64) -> (r: TokenStep)
    ensures
        r == token_step_spec(opt_deref(stored), now as int),
{
    match stored {
        Some(s) => match &s.tokens {
            Some(t) => {
                if !is_token_expired_at(t, now) {
                    TokenStep::Use(t.access_token.clone())
                } else if t.refresh_token.is_some() {
                    TokenStep::Refresh
                } else {
                    TokenStep::NoToken
                }
            },
            None => TokenStep::NoToken,
        },
        None => TokenStep::NoToken,
    }
}

/// The token after a refresh attempt: a failed refresh is not fatal, the
/// connect goes on without a token.
pub fn token_after_refresh(refreshed: Result<String, AppError>) -> (r: Option<String>)
    ensures
        match refreshed {
            Ok(t) => r == Some(t),
            Err(_) => r is None,
        },
{
    match refreshed {
        Ok(t) => Some(t),
        Err(_) => None,
    }
}

/// Checks that a plan names something to connect to: a non-empty command
/// for a process, a non-empty URL for HTTP.
pub fn check_plan(plan: &ConnectPlan) -> (r: Result<(), AppError>)
    ensures
        plan.transport == ServerTransport::Stdio ==> match plan.command {
            Some(c) if c@.len() > 0 => r is Ok,
            _ => r matches Err(AppError::ConnectionFailed(m)) && m@ == "No command specified"@,
        },
        plan.transport == ServerTransport::Http ==> match plan.url {
            Some(u) if u@.len() > 0 => r is Ok,
            _ => r matches Err(AppError::ConnectionFailed(m)) && m@ == "No URL specified"@,
        },
{
    match plan.transport {
        ServerTransport::Stdio => match &plan.command {
            Some(c) if !c.as_str().is_empty() => Ok(()),
            _ => Err(AppError::ConnectionFailed("No command specified".to_owned())),
        },
        ServerTransport::Http => match &plan.url {
            Some(u) if !u.as_str().is_empty() => Ok(()),
            _ => Err(AppError::ConnectionFailed("No URL specified".to_owned())),
        },
    }
}

/// `t` is `d` tagged with its backend's id and name.
pub open spec fn tagged(t: McpTool, d: McpToolDef, id: Seq<char>, name: Seq<char>) -> bool {
    t.name == d.name && t.title == d.title && t.description == d.description && t.input_schema
        == d.input_schema && t.server_id@ == id && t.server_name@ == name
}

/// The name of the first backend with id `id`, or empty.
pub open spec fn server_name_of(servers: Seq<ServerConfig>, id: Seq<char>) -> Seq<char> {
    let i = first_server(servers, id);
    if i >= 0 {
        servers[i].name@
    } else {
        Seq::empty()
    }
}

/// The configuration and connection data of the gateway.
pub struct AppState {
    pub servers: Vec<ServerConfig>,
    /// The tools of each connected backend, by backend id.
    pub connections: KeyedTable<ConnectionState>,
    /// Log lines kept until the user interface drains them.
    pub log_buffer: Vec<BufferedLog>,
    /// Whether the discovery endpoint serves calls.
    pub tool_discovery_enabled: bool,
}

impl AppState {
    pub open spec fn wf(&self) -> bool {
        self.connections.wf()
    }

    pub fn new() -> (r: Self)
        ensures
            r.wf(),
            r.servers@ == Seq::<ServerConfig>::empty(),
            r.connections@ == Map::<Seq<char>, ConnectionState>::empty(),
            r.log_buffer@ == Seq::<BufferedLog>::empty(),
            !r.tool_discovery_enabled,
    {
        AppState {
            servers: Vec::new(),
            connections: KeyedTable::new(),
            log_buffer: Vec::new(),
            tool_discovery_enabled: false,
        }
    }

    /// The index of the first backend with id `id`.
    pub fn find_server(&self, id: &str) -> (r: Option<usize>)
        ensures
            match r {
                Some(i) => first_server(self.servers@, id@) == i as int,
                None => first_server(self.servers@, id@) == -1,
            },
    {
        let idc = crate::text::chars_of(id);
        let mut i: usize = 0;
        while i < self.servers.len()
            invariant
                i <= self.servers@.len(),
                idc@ == id@,
                forall|j: int| 0 <= j < i ==> #[trigger] self.servers@[j].id@ != id@,
            decreases self.servers@.len() - i,
        {
            if crate::text::eq_chars(
                crate::text::chars_of(self.servers[i].id.as_str()).as_slice(),
                idc.as_slice(),
            ) {
                proof {
                    assert(is_first_server(self.servers@, id@, i as int));
                    let c = choose|c: int| is_first_server(self.servers@, id@, c);
                    if c < i {
                        assert(self.servers@[c].id@ != id@);
                    } else if c > i {
                        assert(self.servers@[i as int].id@ != id@);
                    }
                }
                return Some(i);
            }
            i = i + 1;
        }
        proof {
            if exists|k: int| is_first_server(self.servers@, id@, k) {
                let k = choose|k: int| is_first_server(self.servers@, id@, k);
                assert(self.servers@[k].id@ != id@);
            }
        }
        None
    }

    fn put_status(&mut self, i: usize, st: ServerStatus)
        requires
            i < old(self).servers@.len(),
        ensures
            final(self).servers@ == old(self).servers@.update(
                i as int,
                with_status(old(self).servers@[i as int], st),
            ),
            final(self).connections == old(self).connections,
            final(self).log_buffer == old(self).log_buffer,
            final(self).tool_discovery_enabled == old(self).tool_discovery_enabled,
    {
        let mut s = self.servers.remove(i);
        s.status = Some(st);
        self.servers.insert(i, s);
        assert(self.servers@ =~= old(self).servers@.update(
            i as int,
            with_status(old(self).servers@[i as int], st),
        ));
    }

    /// Starts a connect: an unknown backend and one already connected or
    /// connecting are refused; otherwise it becomes Connecting and its plan
    /// is returned.
    pub fn begin_connect(&mut self, id: &str) -> (r: Result<ConnectPlan, AppError>)
        ensures
            ({
                let i = first_server(old(self).servers@, id@);
                &&& i < 0 ==> (r matches Err(AppError::ServerNotFound(m)) && m@ == id@)
                &&& i >= 0 && is_active(old(self).servers@[i].status) ==> (r matches Err(
                    AppError::AlreadyConnected(m),
                ) && m@ == id@)
                &&& r is Err ==> final(self).servers@ == old(self).servers@
                &&& i >= 0 && !is_active(old(self).servers@[i].status) ==> (r matches Ok(p)
                    && plan_of(p, old(self).servers@[i]) && final(self).servers@ == set_status(
                    old(self).servers@,
                    id@,
                    ServerStatus::Connecting,
                ))
            }),
            final(self).connections == old(self).connections,
            final(self).log_buffer == old(self).log_buffer,
            final(self).tool_discovery_enabled == old(self).tool_discovery_enabled,
    {
        let i = match self.find_server(id) {
            Some(i) => i,
            None => {
                return Err(AppError::ServerNotFound(id.to_owned()));
            },
        };
        let st = self.servers[i].status;
        if st == Some(ServerStatus::Connected) || st == Some(ServerStatus::Connecting) {
            return Err(AppError::AlreadyConnected(id.to_owned()));
        }
        let plan = plan_from(&self.servers[i]);
        self.put_status(i, ServerStatus::Connecting);
        Ok(plan)
    }

    /// Marks the first backend with id `id` as errored.
    pub fn mark_server_error(&mut self, id: &str)
        ensures
            final(self).servers@ == set_status(old(self).servers@, id@, ServerStatus::Error),
            final(self).connections == old(self).connections,
            final(self).log_buffer == old(self).log_buffer,
            final(self).tool_discovery_enabled == old(self).tool_discovery_enabled,
    {
        if let Some(i) = self.find_server(id) {
            self.put_status(i, ServerStatus::Error);
        }
    }

    /// A connect failed: the backend goes to Error. An authorization failure
    /// comes back as the request to authorize; any other error as it is.
    pub fn connect_failed(&mut self, id: &str, err: AppError) -> (r: AppError)
        ensures
            final(self).servers@ == set_status(old(self).servers@, id@, ServerStatus::Error),
            err is AuthRequired ==> (r matches AppError::AuthRequired(m) && m@
                == "Authentication required. Click Authorize to sign in."@),
            !(err is AuthRequired) ==> r == err,
            final(self).connections == old(self).connections,
            final(self).log_buffer == old(self).log_buffer,
            final(self).tool_discovery_enabled == old(self).tool_discovery_enabled,
    {
        self.mark_server_error(id);
        if err.is_auth_required() {
            AppError::AuthRequired("Authentication required. Click Authorize to sign in.".to_owned())
        } else {
            err
        }
    }

    /// A connect succeeded: the backend's tools are stored, tagged with its
    /// id and name, and it becomes Connected at `connected_at`.
    pub fn finish_connect(&mut self, id: &str, tools: Vec<McpToolDef>, connected_at: String)
        requires
            old(self).wf(),
        ensures
            final(self).wf(),
            ({
                let i = first_server(old(self).servers@, id@);
                &&& i >= 0 ==> final(self).servers@ == old(self).servers@.update(
                    i,
                    ServerConfig {
                        status: Some(ServerStatus::Connected),
                        last_connected: Some(connected_at),
                        ..old(self).servers@[i]
                    },
                )
                &&& i < 0 ==> final(self).servers@ == old(self).servers@
            }),
            final(self).connections@.contains_key(id@),
            final(self).connections@ == old(self).connections@.insert(
                id@,
                final(self).connections@[id@],
            ),
            final(self).connections@[id@].tools@.len() == tools@.len(),
            forall|k: int|
                0 <= k < tools@.len() ==> tagged(
                    #[trigger] final(self).connections@[id@].tools@[k],
                    tools@[k],
                    id@,
                    server_name_of(old(self).servers@, id@),
                ),
            final(self).log_buffer == old(self).log_buffer,
            final(self).tool_discovery_enabled == old(self).tool_discovery_enabled,
    {
        let found = self.find_server(id);
        let name: String = match found {
            Some(i) => self.servers[i].name.clone(),
            None => String::new(),
        };
        let mut tagged_tools: Vec<McpTool> = Vec::new();
        let mut rest = tools;
        let ghost all = rest@;
        let n = rest.len();
        let mut k: usize = 0;
        while rest.len() > 0
            invariant
                all.len() == n,
                k + rest@.len() == all.len(),
                rest@ == all.subrange(k as int, all.len() as int),
                tagged_tools@.len() == k,
                name@ == server_name_of(old(self).servers@, id@),
                forall|j: int|
                    0 <= j < k ==> tagged(#[trigger] tagged_tools@[j], all[j], id@, name@),
            decreases rest@.len(),
        {
            let d = rest.remove(0);
            tagged_tools.push(
                McpTool {
                    name: d.name,
                    title: d.title,
                    description: d.description,
                    input_schema: d.input_schema,
                    server_id: id.to_owned(),
                    server_name: name.clone(),
                },
            );
            assert(rest@ =~= all.subrange(k + 1, all.len() as int));
            k = k + 1;
        }
        match found {
            Some(i) => {
                let mut s = self.servers.remove(i);
                s.status = Some(ServerStatus::Connected);
                s.last_connected = Some(connected_at);
                self.servers.insert(i, s);
                assert(self.servers@ =~= old(self).servers@.update(i as int, s));
            },
            None => {},
        }
        self.connections.insert(id.to_owned(), ConnectionState { tools: tagged_tools });
    }

    /// Disconnects a backend: its tools are dropped and it becomes
    /// Disconnected; an unknown backend is an error.
    pub fn disconnect(&mut self, id: &str) -> (r: Result<(), AppError>)
        requires
            old(self).wf(),
        ensures
            final(self).wf(),
            first_server(old(self).servers@, id@) < 0 ==> (r matches Err(
                AppError::ServerNotFound(m),
            ) && m@ == id@) && final(self).servers@ == old(self).servers@
                && final(self).connections@ == old(self).connections@,
            first_server(old(self).servers@, id@) >= 0 ==> r is Ok && final(self).servers@
                == set_status(old(self).servers@, id@, ServerStatus::Disconnected)
                && final(self).connections@ == old(self).connections@.remove(id@),
            final(self).log_buffer == old(self).log_buffer,
            final(self).tool_discovery_enabled == old(self).tool_discovery_enabled,
    {
        match self.find_server(id) {
            None => Err(AppError::ServerNotFound(id.to_owned())),
            Some(i) => {
                self.put_status(i, ServerStatus::Disconnected);
                let _ = self.connections.remove(id);
                Ok(())
            },
        }
    }

    /// On startup every backend is reset to Disconnected; those that were
    /// connected or connecting are returned, in order, to be reconnected.
    pub fn startup_reset(&mut self) -> (r: Vec<(String, ConnectPlan)>)
        ensures
            final(self).servers@.len() == old(self).servers@.len(),
            forall|k: int|
                0 <= k < old(self).servers@.len() ==> #[trigger] final(self).servers@[k]
                    == with_status(old(self).servers@[k], ServerStatus::Disconnected),
            reconnect_list(r@, old(self).servers@, old(self).servers@.len() as int),
            final(self).connections == old(self).connections,
            final(self).log_buffer == old(self).log_buffer,
            final(self).tool_discovery_enabled == old(self).tool_discovery_enabled,
    {
        let mut out: Vec<(String, ConnectPlan)> = Vec::new();
        let mut i: usize = 0;
        let ghost orig = self.servers@;
        while i < self.servers.len()
            invariant
                self.servers@.len() == orig.len(),
                orig == old(self).servers@,
                i <= orig.len(),
                forall|k: int|
                    0 <= k < i ==> #[trigger] self.servers@[k] == with_status(
                        orig[k],
                        ServerStatus::Disconnected,
                    ),
                forall|k: int| i <= k < orig.len() ==> #[trigger] self.servers@[k] == orig[k],
                reconnect_list(out@, orig, i as int),
                self.connections == old(self).connections,
                self.log_buffer == old(self).log_buffer,
                self.tool_discovery_enabled == old(self).tool_discovery_enabled,
            decreases orig.len() - i,
        {
            let st = self.servers[i].status;
            if st == Some(ServerStatus::Connected) || st == Some(ServerStatus::Connecting) {
                let plan = plan_from(&self.servers[i]);
                let ghost before = out@;
                out.push((self.servers[i].id.clone(), plan));
                assert(out@.drop_last() =~= before);
            }
            self.put_status(i, ServerStatus::Disconnected);
            i = i + 1;
        }
        out
    }

    /// Before a startup reconnect: a backend that has meanwhile become
    /// connected or connecting is skipped (`false`); a known one becomes
    /// Connecting.
    pub fn begin_reconnect(&mut self, id: &str) -> (r: bool)
        ensures
            ({
                let i = first_server(old(self).servers@, id@);
                &&& i >= 0 && is_active(old(self).servers@[i].status) ==> !r
                    && final(self).servers@ == old(self).servers@
                &&& i >= 0 && !is_active(old(self).servers@[i].status) ==> r
                    && final(self).servers@ == set_status(
                    old(self).servers@,
                    id@,
                    ServerStatus::Connecting,
                )
                &&& i < 0 ==> r && final(self).servers@ == old(self).servers@
            }),
            final(self).connections == old(self).connections,
            final(self).log_buffer == old(self).log_buffer,
            final(self).tool_discovery_enabled == old(self).tool_discovery_enabled,
    {
        match self.find_server(id) {
            None => true,
            Some(i) => {
                let st = self.servers[i].status;
                if st == Some(ServerStatus::Connected) || st == Some(ServerStatus::Connecting) {
                    false
                } else {
                    self.put_status(i, ServerStatus::Connecting);
                    true
                }
            },
        }
    }

    /// Buffers a log line for the user interface.
    pub fn buffer_log(&mut self, server_id: &str, level: &str, message: &str)
        ensures
            final(self).log_buffer@.len() == old(self).log_buffer@.len() + 1,
            final(self).log_buffer@.last().server_id@ == server_id@,
            final(self).log_buffer@.last().level@ == level@,
            final(self).log_buffer@.last().message@ == message@,
            final(self).log_buffer@.drop_last() == old(self).log_buffer@,
            final(self).servers == old(self).servers,
            final(self).connections == old(self).connections,
            final(self).tool_discovery_enabled == old(self).tool_discovery_enabled,
    {
        self.log_buffer.push(
            BufferedLog {
                server_id: server_id.to_owned(),
                level: level.to_owned(),
                message: message.to_owned(),
            },
        );
        assert(self.log_buffer@.drop_last() =~= old(self).log_buffer@);
    }

    /// Hands over the buffered log lines and empties the buffer.
    pub fn drain_log_buffer(&mut self) -> (r: Vec<BufferedLog>)
        ensures
            r@ == old(self).log_buffer@,
            final(self).log_buffer@ == Seq::<BufferedLog>::empty(),
            final(self).servers == old(self).servers,
            final(self).connections == old(self).connections,
            final(self).tool_discovery_enabled == old(self).tool_discovery_enabled,
    {
        let mut r: Vec<BufferedLog> = Vec::new();
        std::mem::swap(&mut r, &mut self.log_buffer);
        r
    }
}

/// `out` lists, in order, the id and plan of each of the first `n` backends
/// that is connected or connecting.
pub open spec fn reconnect_list(out: Seq<(String, ConnectPlan)>, servers: Seq<ServerConfig>, n: int) -> bool
    decreases n,
{
    if n <= 0 {
        out.len() == 0
    } else if is_active(servers[n - 1].status) {
        out.len() > 0 && out.last().0 == servers[n - 1].id && plan_of(out.last().1, servers[n - 1])
            && reconnect_list(out.drop_last(), servers, n - 1)
    } else {
        reconnect_list(out, servers, n - 1)
    }
}

/// The plan of a backend's configuration.
pub fn plan_from(s: &ServerConfig) -> (r: ConnectPlan)
    ensures
        plan_of(r, *s),
{
    ConnectPlan {
        transport: s.transport,
        command: clone_opt(&s.command),
        args: match &s.args {
            Some(a) => clone_strings(a),
            None => Vec::new(),
        },
        env: match &s.env {
            Some(e) => clone_pairs(e),
            None => Vec::new(),
        },
        url: clone_opt(&s.url),
        headers: match &s.headers {
            Some(h) => clone_pairs(h),
            None => Vec::new(),
        },
    }
}

/// The live clients, by backend id. Only lookup, insertion and removal go
/// through it; a client is taken out before any I/O is done with it.
pub struct McpConnections<C> {
    clients: KeyedTable<C>,
}

impl<C> View for McpConnections<C> {
    type V = Map<Seq<char>, C>;

    closed spec fn view(&self) -> Map<Seq<char>, C> {
        self.clients@
    }
}

impl<C> McpConnections<C> {
    pub closed spec fn wf(&self) -> bool {
        self.clients.wf()
    }

    pub fn new() -> (r: Self)
        ensures
            r.wf(),
            r@ == Map::<Seq<char>, C>::empty(),
    {
        McpConnections { clients: KeyedTable::new() }
    }

    pub fn insert(&mut self, id: String, client: C)
        requires
            old(self).wf(),
        ensures
            final(self).wf(),
            final(self)@ == old(self)@.insert(id@, client),
    {
        self.clients.insert(id, client);
    }

    pub fn remove(&mut self, id: &str) -> (r: Option<C>)
        requires
            old(self).wf(),
        ensures
            final(self).wf(),
            final(self)@ == old(self)@.remove(id@),
            r == (if old(self)@.contains_key(id@) {
                Some(old(self)@[id@])
            } else {
                None
            }),
    {
        self.clients.remove(id)
    }

    pub fn get(&self, id: &str) -> (r: Option<&C>)
        requires
            self.wf(),
        ensures
            match r {
                Some(c) => self@.contains_key(id@) && *c == self@[id@],
                None => !self@.contains_key(id@),
            },
    {
        self.clients.get(id)
    }
}

} // verus!
