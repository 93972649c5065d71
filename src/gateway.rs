//! The gateway's routing rules: the per-backend endpoint, the discovery
//! endpoint with its three meta-tools, the translation of tool results and
//! failures, origin and content negotiation, and tool-list change signals.
use std::hash::{Hash, Hasher};
use vstd::prelude::*;

use crate::error::{error_text, AppError};
use crate::lifecycle::{first_server, AppState, McpConnections};
use crate::state::{clone_opt, ConnectionState, McpTool, ServerConfig, ServerStatus, ToolSchema};
use crate::table::KeyedTable;
use crate::text::{
    cat, chars_of, contains, eq_chars, has_substring, join, joined, lower_of, split_words,
    starts_with, string_views, to_lower, views, words_of,
};

verus! {

pub const METHOD_NOT_FOUND: i64 = -32601;

pub const INVALID_PARAMS: i64 = -32602;

pub const INTERNAL_ERROR: i64 = -32603;

/// The code of calls to the discovery endpoint while it is switched off.
pub const NOT_ENABLED: i64 = -32001;

/// The most matches that `discover_tools` returns.
pub const MAX_DISCOVERY_RESULTS: usize = 20;

/// One item of a tool's result content.
#[derive(Debug, Clone)]
pub struct McpContent {
    /// The item's `type`.
    pub kind: String,
    /// Its `text`, for a text item.
    pub text: Option<String>,
    /// The whole item as JSON text.
    pub json: String,
}

/// What a backend returned for `tools/call`.
#[derive(Debug, Clone)]
pub struct CallToolResult {
    pub content: Vec<McpContent>,
    /// Set when the tool itself reports a failure.
    pub is_error: Option<bool>,
}

/// One hit of `discover_tools`.
#[derive(Debug, Clone)]
pub struct DiscoveryMatch {
    pub server_id: String,
    pub server_name: String,
    pub name: String,
    pub title: Option<String>,
    pub description: Option<String>,
    /// A readable summary of the tool's parameters.
    pub parameters: String,
    /// The tool's input schema as JSON text.
    pub input_schema: Option<String>,
}

/// One connected backend, as `list_servers` shows it.
#[derive(Debug, Clone)]
pub struct ServerListing {
    pub server_id: String,
    pub server_name: String,
    pub tool_count: usize,
    pub tools: Vec<String>,
}

/// The result or error that a JSON-RPC reply carries.
#[derive(Debug, Clone)]
pub enum RpcOutcome {
    /// The gateway's answer to `initialize`: the gateway is the server.
    Initialize { protocol_version: String, server_name: String, list_changed: bool },
    /// A backend's cached tools.
    Tools(Vec<McpTool>),
    /// The three meta-tools of the discovery endpoint.
    DiscoveryTools,
    /// A backend's tool result, passed on.
    ToolResult(CallToolResult),
    /// The hits of `discover_tools`.
    Matches(Vec<DiscoveryMatch>),
    /// The connected backends, for `list_servers`.
    Servers(Vec<ServerListing>),
    /// A text result, flagged as a tool error or not.
    Text { text: String, is_error: bool },
    /// A JSON-RPC error.
    Error { code: i64, message: String },
}

/// What the gateway does with a POST.
#[derive(Debug, Clone)]
pub enum GatewayStep {
    /// A notification or response: 202 with an empty body, nothing else.
    Accepted,
    /// Answer with this.
    Reply(RpcOutcome),
    /// Call `tool_name` on backend `server_id`, then answer with its result.
    CallTool { server_id: String, server_name: String, tool_name: String },
}

/// What the gateway reads from a JSON-RPC request body.
#[derive(Debug, Clone)]
pub struct RequestInfo {
    /// Whether the message has an `id`.
    pub has_id: bool,
    /// Its `method`, empty when absent.
    pub method: String,
    /// `params.protocolVersion`, when it is a string.
    pub protocol_version: Option<String>,
    /// Whether it has `params`.
    pub has_params: bool,
    /// `params.name`, when it is a string.
    pub tool_name: Option<String>,
}

/// What the discovery meta-tools read from `params.arguments`.
#[derive(Debug, Clone)]
pub struct DiscoveryArgs {
    pub query: Option<String>,
    pub server_id: Option<String>,
    pub tool_name: Option<String>,
}

pub open spec fn err_out(code: i64, m: Seq<char>) -> spec_fn(RpcOutcome) -> bool {
    |o: RpcOutcome| o matches RpcOutcome::Error { code: c, message } && c == code && message@ == m
}

pub open spec fn is_error_reply(s: GatewayStep, code: i64, m: Seq<char>) -> bool {
    s matches GatewayStep::Reply(o) && err_out(code, m)(o)
}

fn error_reply(code: i64, message: String) -> (r: GatewayStep)
    ensures
        is_error_reply(r, code, message@),
{
    GatewayStep::Reply(RpcOutcome::Error { code, message })
}

/// The protocol versions the gateway speaks, newest first.
pub open spec fn supported_version(v: Seq<char>) -> bool {
    v == "2025-03-26"@ || v == "2024-11-05"@
}

/// The version agreed with a caller: its own when supported, else the newest.
pub open spec fn negotiated(requested: Seq<char>) -> Seq<char> {
    if supported_version(requested) {
        requested
    } else {
        "2025-03-26"@
    }
}

/// Agrees on a protocol version with a caller.
pub fn negotiate_version(requested: &str) -> (r: String)
    ensures
        r@ == negotiated(requested@),
{
    let q = chars_of(requested);
    if eq_chars(q.as_slice(), chars_of("2025-03-26").as_slice()) || eq_chars(
        q.as_slice(),
        chars_of("2024-11-05").as_slice(),
    ) {
        requested.to_owned()
    } else {
        "2025-03-26".to_owned()
    }
}

/// The name under which the gateway presents itself for a backend.
pub open spec fn gateway_name(server_name: Seq<char>) -> Seq<char> {
    "MCP Manager \u{2014} "@ + server_name
}

/// The tools cached for a backend (none when it has no entry).
pub open spec fn cached_tools(conns: Map<Seq<char>, ConnectionState>, id: Seq<char>) -> Seq<
    McpTool,
> {
    if conns.contains_key(id) {
        conns[id].tools@
    } else {
        Seq::empty()
    }
}

/// `a` and `b` hold the same values.
pub open spec fn same_schema(a: ToolSchema, b: ToolSchema) -> bool {
    a.json == b.json && a.properties@ == b.properties@ && a.required@ == b.required@
}

pub open spec fn same_opt_schema(a: Option<ToolSchema>, b: Option<ToolSchema>) -> bool {
    match (a, b) {
        (Some(x), Some(y)) => same_schema(x, y),
        (None, None) => true,
        _ => false,
    }
}

/// `a` and `b` describe the same tool.
pub open spec fn same_tool(a: McpTool, b: McpTool) -> bool {
    a.name == b.name && a.title == b.title && a.description == b.description && same_opt_schema(
        a.input_schema,
        b.input_schema,
    ) && a.server_id == b.server_id && a.server_name == b.server_name
}

fn copy_schema(s: &ToolSchema) -> (r: ToolSchema)
    ensures
        same_schema(r, *s),
{
    let mut props: Vec<(String, Option<String>)> = Vec::new();
    let mut i: usize = 0;
    while i < s.properties.len()
        invariant
            i <= s.properties@.len(),
            props@ == s.properties@.subrange(0, i as int),
        decreases s.properties@.len() - i,
    {
        props.push((s.properties[i].0.clone(), clone_opt(&s.properties[i].1)));
        assert(props@ =~= s.properties@.subrange(0, i + 1));
        i = i + 1;
    }
    assert(s.properties@.subrange(0, i as int) =~= s.properties@);
    ToolSchema {
        json: s.json.clone(),
        properties: props,
        required: crate::state::clone_strings(&s.required),
    }
}

fn copy_tool(t: &McpTool) -> (r: McpTool)
    ensures
        same_tool(r, *t),
{
    McpTool {
        name: t.name.clone(),
        title: clone_opt(&t.title),
        description: clone_opt(&t.description),
        input_schema: match &t.input_schema {
            Some(s) => Some(copy_schema(s)),
            None => None,
        },
        server_id: t.server_id.clone(),
        server_name: t.server_name.clone(),
    }
}

/// A copy of the tools cached for a backend, with their original names.
pub fn tools_for(state: &AppState, server_id: &str) -> (r: Vec<McpTool>)
    requires
        state.wf(),
    ensures
        r@.len() == cached_tools(state.connections@, server_id@).len(),
        forall|k: int|
            0 <= k < r@.len() ==> same_tool(#[trigger] r@[k], cached_tools(state.connections@, server_id@)[k]),
{
    let mut out: Vec<McpTool> = Vec::new();
    match state.connections.get(server_id) {
        None => out,
        Some(c) => {
            let mut i: usize = 0;
            while i < c.tools.len()
                invariant
                    i <= c.tools@.len(),
                    out@.len() == i,
                    forall|k: int| 0 <= k < i ==> same_tool(#[trigger] out@[k], c.tools@[k]),
                decreases c.tools@.len() - i,
            {
                out.push(copy_tool(&c.tools[i]));
                i = i + 1;
            }
            out
        },
    }
}

/// How the per-backend endpoint answers a request, before any tool call.
pub open spec fn backend_route_ok(state: AppState, server_id: Seq<char>, req: RequestInfo, r: GatewayStep) -> bool {
    let i = first_server(state.servers@, server_id);
    if !req.has_id {
        r is Accepted
    } else if i < 0 {
        is_error_reply(r, INVALID_PARAMS, "No server found with ID: "@ + server_id)
    } else if req.method@ == "initialize"@ {
        r matches GatewayStep::Reply(RpcOutcome::Initialize { protocol_version, server_name, list_changed })
            && protocol_version@ == negotiated(match req.protocol_version {
                Some(v) => v@,
                None => Seq::empty(),
            }) && server_name@ == gateway_name(state.servers@[i].name@) && list_changed
    } else if req.method@ == "tools/list"@ {
        r matches GatewayStep::Reply(RpcOutcome::Tools(ts)) && ts@.len() == cached_tools(
            state.connections@,
            server_id,
        ).len() && forall|k: int|
            0 <= k < ts@.len() ==> same_tool(#[trigger] ts@[k], cached_tools(state.connections@, server_id)[k])
    } else if req.method@ == "tools/call"@ {
        if !req.has_params {
            is_error_reply(r, INVALID_PARAMS, "Missing params for tools/call"@)
        } else if req.tool_name is None {
            is_error_reply(r, INVALID_PARAMS, "Missing tool name in params"@)
        } else {
            r matches GatewayStep::CallTool { server_id: sid, server_name, tool_name } && sid@
                == server_id && server_name@ == state.servers@[i].name@ && tool_name
                == req.tool_name.unwrap()
        }
    } else {
        is_error_reply(r, METHOD_NOT_FOUND, "Method not found: "@ + req.method@)
    }
}

fn is_method(m: &String, name: &str) -> (r: bool)
    ensures
        r == (m@ == name@),
{
    eq_chars(chars_of(m.as_str()).as_slice(), chars_of(name).as_slice())
}

/// Routes a POST to a backend's endpoint (see `backend_route_ok`).
pub fn route_backend(state: &AppState, server_id: &str, req: RequestInfo) -> (r: GatewayStep)
    requires
        state.wf(),
    ensures
        backend_route_ok(*state, server_id@, req, r),
{
    if !req.has_id {
        return GatewayStep::Accepted;
    }
    let i = match state.find_server(server_id) {
        Some(i) => i,
        None => {
            return error_reply(INVALID_PARAMS, cat("No server found with ID: ", server_id));
        },
    };
    let name = &state.servers[i].name;
    if is_method(&req.method, "initialize") {
        let requested = match &req.protocol_version {
            Some(v) => v.clone(),
            None => String::new(),
        };
        GatewayStep::Reply(
            RpcOutcome::Initialize {
                protocol_version: negotiate_version(requested.as_str()),
                server_name: cat("MCP Manager \u{2014} ", name.as_str()),
                list_changed: true,
            },
        )
    } else if is_method(&req.method, "tools/list") {
        GatewayStep::Reply(RpcOutcome::Tools(tools_for(state, server_id)))
    } else if is_method(&req.method, "tools/call") {
        if !req.has_params {
            return error_reply(INVALID_PARAMS, "Missing params for tools/call".to_owned());
        }
        match req.tool_name {
            None => error_reply(INVALID_PARAMS, "Missing tool name in params".to_owned()),
            Some(t) => GatewayStep::CallTool {
                server_id: server_id.to_owned(),
                server_name: name.clone(),
                tool_name: t,
            },
        }
    } else {
        error_reply(METHOD_NOT_FOUND, cat("Method not found: ", req.method.as_str()))
    }
}

/// Listing a backend's tools twice, with nothing changed in between, gives
/// the same tools in the same order.
pub proof fn lemma_tools_list_repeatable(
    state: AppState,
    server_id: Seq<char>,
    req: RequestInfo,
    a: GatewayStep,
    b: GatewayStep,
)
    requires
        backend_route_ok(state, server_id, req, a),
        backend_route_ok(state, server_id, req, b),
        req.has_id,
        req.method@ == "tools/list"@,
        first_server(state.servers@, server_id) >= 0,
    ensures
        a matches GatewayStep::Reply(RpcOutcome::Tools(x)) && b matches GatewayStep::Reply(
            RpcOutcome::Tools(y),
        ) && x@.len() == y@.len() && forall|k: int|
            0 <= k < x@.len() ==> same_tool(#[trigger] x@[k], y@[k]),
{
    reveal_strlit("tools/list");
    reveal_strlit("initialize");
    assert("tools/list"@[0] != "initialize"@[0]);
}

/// The message for a call to a backend with no live connection.
pub open spec fn not_connected_text(server_name: Seq<char>) -> Seq<char> {
    "Server '"@ + server_name + "' is not connected"@
}

/// The live client of a backend, or the error reply naming the backend.
pub fn lookup_client<'a, C>(conns: &'a McpConnections<C>, server_id: &str, server_name: &str) -> (r: Result<&'a C, RpcOutcome>)
    requires
        conns.wf(),
    ensures
        conns@.contains_key(server_id@) ==> (r matches Ok(c) && *c == conns@[server_id@]),
        !conns@.contains_key(server_id@) ==> (r matches Err(o) && err_out(
            INVALID_PARAMS,
            not_connected_text(server_name@),
        )(o)),
{
    match conns.get(server_id) {
        Some(c) => Ok(c),
        None => {
            let m = cat(cat("Server '", server_name).as_str(), "' is not connected");
            Err(RpcOutcome::Error { code: INVALID_PARAMS, message: m })
        },
    }
}

/// A tool call on a backend without a live connection fails with an error
/// that names the backend, whatever the registry holds otherwise.
pub proof fn lemma_unconnected_call_names_backend(server_name: Seq<char>, o: RpcOutcome)
    requires
        err_out(INVALID_PARAMS, not_connected_text(server_name))(o),
    ensures
        o matches RpcOutcome::Error { message, .. } && contains(message@, server_name),
{
    let m = not_connected_text(server_name);
    let k = "Server '"@.len() as int;
    assert(m.subrange(k, k + server_name.len()) =~= server_name);
    assert(crate::text::occurs_at(m, server_name, k));
}

/// The reply for a backend's tool-call outcome, and whether it counts as an
/// error: a tool result is passed on (an error when the tool says so); a
/// failed call becomes an internal error naming the failure.
pub fn call_outcome(result: Result<CallToolResult, AppError>) -> (r: (RpcOutcome, bool))
    ensures
        match result {
            Ok(c) => r.0 matches RpcOutcome::ToolResult(x) && x == c && r.1 == (c.is_error
                == Some(true)),
            Err(e) => err_out(INTERNAL_ERROR, "Tool call failed: "@ + error_text(e))(r.0) && r.1,
        },
{
    match result {
        Ok(c) => {
            let is_err = match c.is_error {
                Some(b) => b,
                None => false,
            };
            (RpcOutcome::ToolResult(c), is_err)
        },
        Err(e) => {
            let m = cat("Tool call failed: ", e.to_message().as_str());
            (RpcOutcome::Error { code: INTERNAL_ERROR, message: m }, true)
        },
    }
}

/// Whether the `Accept` header asks for an event stream.
pub fn client_accepts_sse(accept: Option<&str>) -> (r: bool)
    ensures
        r == (accept matches Some(a) && contains(a@, "text/event-stream"@)),
{
    match accept {
        Some(a) => has_substring(chars_of(a).as_slice(), chars_of("text/event-stream").as_slice()),
        None => false,
    }
}

/// `o` is host `p`, with or without a port.
pub open spec fn origin_with(o: Seq<char>, p: Seq<char>) -> bool {
    crate::text::has_prefix(o, p) && (o.len() == p.len() || o[p.len() as int] == ':')
}

/// An origin of the local machine: a loopback host, with an optional port.
pub open spec fn local_origin(o: Seq<char>) -> bool {
    origin_with(o, "http://localhost"@) || origin_with(o, "https://localhost"@) || origin_with(
        o,
        "http://127.0.0.1"@,
    ) || origin_with(o, "https://127.0.0.1"@) || origin_with(o, "http://[::1]"@) || origin_with(
        o,
        "https://[::1]"@,
    )
}

fn origin_with_host(o: &[char], p: &str) -> (r: bool)
    ensures
        r == origin_with(o@, p@),
{
    let pc = chars_of(p);
    if !starts_with(o, pc.as_slice()) {
        return false;
    }
    o.len() == pc.len() || o[pc.len()] == ':'
}

/// Requests with no `Origin` header, or one of the local machine, are let
/// in; any other origin is refused.
pub fn origin_allowed(origin: Option<&str>) -> (r: bool)
    ensures
        r == match origin {
            None => true,
            Some(o) => local_origin(o@),
        },
{
    match origin {
        None => true,
        Some(o) => {
            let oc = chars_of(o);
            origin_with_host(oc.as_slice(), "http://localhost") || origin_with_host(
                oc.as_slice(),
                "https://localhost",
            ) || origin_with_host(oc.as_slice(), "http://127.0.0.1") || origin_with_host(
                oc.as_slice(),
                "https://127.0.0.1",
            ) || origin_with_host(oc.as_slice(), "http://[::1]") || origin_with_host(
                oc.as_slice(),
                "https://[::1]",
            )
        },
    }
}

/// The text of one parameter in a summary: `name (type, required)` or
/// `name (type)`, with `any` for an undeclared type.
pub open spec fn param_text(p: (String, Option<String>), required: Seq<String>) -> Seq<char> {
    p.0@ + " ("@ + match p.1 {
        Some(t) => t@,
        None => "any"@,
    } + if exists|k: int| 0 <= k < required.len() && #[trigger] required[k]@ == p.0@ {
        ", required)"@
    } else {
        ")"@
    }
}

/// A readable summary of a tool's parameters, in schema order.
pub open spec fn params_summary(schema: Option<ToolSchema>) -> Seq<char> {
    match schema {
        None => Seq::empty(),
        Some(s) => joined(
            s.properties@.map_values(|p: (String, Option<String>)| param_text(p, s.required@)),
            ", "@,
        ),
    }
}

fn is_required(required: &Vec<String>, name: &String) -> (r: bool)
    ensures
        r == exists|k: int| 0 <= k < required@.len() && #[trigger] required@[k]@ == name@,
{
    let mut i: usize = 0;
    while i < required.len()
        invariant
            i <= required@.len(),
            forall|k: int| 0 <= k < i ==> #[trigger] required@[k]@ != name@,
        decreases required@.len() - i,
    {
        if eq_chars(chars_of(required[i].as_str()).as_slice(), chars_of(name.as_str()).as_slice()) {
            return true;
        }
        i = i + 1;
    }
    false
}

/// Summarizes a tool's parameters (see `params_summary`).
pub fn summarize_params(schema: &Option<ToolSchema>) -> (r: String)
    ensures
        r@ == params_summary(*schema),
{
    match schema {
        None => String::new(),
        Some(s) => {
            let ghost texts = s.properties@.map_values(
                |p: (String, Option<String>)| param_text(p, s.required@),
            );
            let mut parts: Vec<String> = Vec::new();
            let mut i: usize = 0;
            while i < s.properties.len()
                invariant
                    i <= s.properties@.len(),
                    texts == s.properties@.map_values(
                        |p: (String, Option<String>)| param_text(p, s.required@),
                    ),
                    string_views(parts@) == texts.subrange(0, i as int),
                decreases s.properties@.len() - i,
            {
                let name = &s.properties[i].0;
                let typ: &str = match &s.properties[i].1 {
                    Some(t) => t.as_str(),
                    None => "any",
                };
                let head = cat(cat(name.as_str(), " (").as_str(), typ);
                let text = if is_required(&s.required, name) {
                    cat(head.as_str(), ", required)")
                } else {
                    cat(head.as_str(), ")")
                };
                let ghost before = string_views(parts@);
                parts.push(text);
                assert(string_views(parts@) =~= before.push(text@));
                assert(texts.subrange(0, i + 1) =~= texts.subrange(0, i as int).push(texts[i as int]));
                i = i + 1;
            }
            assert(texts.subrange(0, i as int) =~= texts);
            join(&parts, ", ")
        },
    }
}

/// The text a search looks through: the tool's name and description,
/// lower-cased, with a space between.
pub open spec fn haystack_of(t: McpTool) -> Seq<char> {
    lower_of(t.name@) + " "@ + lower_of(
        match t.description {
            Some(d) => d@,
            None => Seq::empty(),
        },
    )
}

/// Every term occurs in the tool's haystack.
pub open spec fn tool_matches(t: McpTool, terms: Seq<Seq<char>>) -> bool {
    forall|k: int| 0 <= k < terms.len() ==> contains(haystack_of(t), #[trigger] terms[k])
}

/// The (backend index, tool index) pairs that the search goes through, in
/// order: each tool of each connected backend among the first `n`.
pub open spec fn tool_slots(servers: Seq<ServerConfig>, conns: Map<Seq<char>, ConnectionState>, n: int) -> Seq<(int, int)>
    decreases n,
{
    if n <= 0 {
        Seq::empty()
    } else {
        tool_slots(servers, conns, n - 1) + if servers[n - 1].status == Some(
            ServerStatus::Connected,
        ) && conns.contains_key(servers[n - 1].id@) {
            Seq::new(conns[servers[n - 1].id@].tools@.len(), |k: int| (n - 1, k))
        } else {
            Seq::empty()
        }
    }
}

pub open spec fn slot_tool(servers: Seq<ServerConfig>, conns: Map<Seq<char>, ConnectionState>, s: (int, int)) -> McpTool {
    conns[servers[s.0].id@].tools@[s.1]
}

/// The slots among the first `n` whose tool matches all terms.
pub open spec fn hits(servers: Seq<ServerConfig>, conns: Map<Seq<char>, ConnectionState>, slots: Seq<(int, int)>, terms: Seq<Seq<char>>, n: int) -> Seq<(int, int)>
    decreases n,
{
    if n <= 0 {
        Seq::empty()
    } else if tool_matches(slot_tool(servers, conns, slots[n - 1]), terms) {
        hits(servers, conns, slots, terms, n - 1).push(slots[n - 1])
    } else {
        hits(servers, conns, slots, terms, n - 1)
    }
}

/// `m` reports tool `t` of backend `s`.
pub open spec fn match_of(m: DiscoveryMatch, s: ServerConfig, t: McpTool) -> bool {
    m.server_id@ == s.id@ && m.server_name@ == s.name@ && m.name@ == t.name@ && m.title
        == t.title && m.description == t.description && m.parameters@ == params_summary(
        t.input_schema,
    ) && m.input_schema == match t.input_schema {
        Some(x) => Some(x.json),
        None => None,
    }
}

/// The search's answer: at most `MAX_DISCOVERY_RESULTS` hits, the first ones
/// in backend and tool order.
pub open spec fn search_result(state: AppState, terms: Seq<Seq<char>>, ms: Seq<DiscoveryMatch>) -> bool {
    let servers = state.servers@;
    let conns = state.connections@;
    let slots = tool_slots(servers, conns, servers.len() as int);
    let h = hits(servers, conns, slots, terms, slots.len() as int);
    &&& ms.len() == if h.len() > MAX_DISCOVERY_RESULTS {
        MAX_DISCOVERY_RESULTS as int
    } else {
        h.len() as int
    }
    &&& forall|j: int|
        0 <= j < ms.len() ==> match_of(
            #[trigger] ms[j],
            servers[h[j].0],
            slot_tool(servers, conns, h[j]),
        )
}

fn all_terms_in(terms: &Vec<Vec<char>>, hay: &Vec<char>) -> (r: bool)
    ensures
        r == forall|k: int| 0 <= k < terms@.len() ==> contains(hay@, #[trigger] views(terms@)[k]),
{
    let mut i: usize = 0;
    while i < terms.len()
        invariant
            i <= terms@.len(),
            forall|k: int| 0 <= k < i ==> contains(hay@, #[trigger] views(terms@)[k]),
        decreases terms@.len() - i,
    {
        if !has_substring(hay.as_slice(), terms[i].as_slice()) {
            assert(!contains(hay@, views(terms@)[i as int]));
            return false;
        }
        i = i + 1;
    }
    true
}

fn haystack(t: &McpTool) -> (r: Vec<char>)
    ensures
        r@ == haystack_of(*t),
{
    let name = to_lower(t.name.as_str());
    let desc = match &t.description {
        Some(d) => to_lower(d.as_str()),
        None => to_lower(""),
    };
    proof {
        // the description of a tool without one is the empty text
        assert(""@ == Seq::<char>::empty()) by {
            reveal_strlit("");
        }
    }
    let with_space = crate::text::concat(name.as_slice(), chars_of(" ").as_slice());
    crate::text::concat(with_space.as_slice(), desc.as_slice())
}

fn match_for(s: &ServerConfig, t: &McpTool) -> (r: DiscoveryMatch)
    ensures
        match_of(r, *s, *t),
{
    DiscoveryMatch {
        server_id: s.id.clone(),
        server_name: s.name.clone(),
        name: t.name.clone(),
        title: clone_opt(&t.title),
        description: clone_opt(&t.description),
        parameters: summarize_params(&t.input_schema),
        input_schema: match &t.input_schema {
            Some(x) => Some(x.json.clone()),
            None => None,
        },
    }
}

proof fn lemma_slots_prefix(
    servers: Seq<ServerConfig>,
    conns: Map<Seq<char>, ConnectionState>,
    n: int,
    m: int,
)
    requires
        0 <= n <= m,
    ensures
        tool_slots(servers, conns, n).len() <= tool_slots(servers, conns, m).len(),
        tool_slots(servers, conns, m).subrange(0, tool_slots(servers, conns, n).len() as int)
            == tool_slots(servers, conns, n),
    decreases m - n,
{
    if n == m {
        assert(tool_slots(servers, conns, m).subrange(0, tool_slots(servers, conns, n).len() as int)
            =~= tool_slots(servers, conns, n));
    } else {
        lemma_slots_prefix(servers, conns, n, m - 1);
        let a = tool_slots(servers, conns, m - 1);
        let b = tool_slots(servers, conns, m);
        let c = tool_slots(servers, conns, n);
        assert(b.subrange(0, a.len() as int) =~= a);
        assert(b.subrange(0, c.len() as int) =~= a.subrange(0, c.len() as int));
    }
}

proof fn lemma_hits_len(
    servers: Seq<ServerConfig>,
    conns: Map<Seq<char>, ConnectionState>,
    slots: Seq<(int, int)>,
    terms: Seq<Seq<char>>,
    n: int,
)
    requires
        0 <= n,
    ensures
        hits(servers, conns, slots, terms, n).len() <= n,
    decreases n,
{
    if n > 0 {
        lemma_hits_len(servers, conns, slots, terms, n - 1);
    }
}

/// The matches of the search terms, uncapped, with `search_result`'s order.
fn collect_hits(state: &AppState, terms: &Vec<Vec<char>>) -> (r: Vec<DiscoveryMatch>)
    requires
        state.wf(),
    ensures
        ({
            let servers = state.servers@;
            let conns = state.connections@;
            let slots = tool_slots(servers, conns, servers.len() as int);
            let h = hits(servers, conns, slots, views(terms@), slots.len() as int);
            &&& r@.len() == h.len()
            &&& forall|j: int|
                0 <= j < r@.len() ==> match_of(
                    #[trigger] r@[j],
                    servers[h[j].0],
                    slot_tool(servers, conns, h[j]),
                )
        }),
{
    let ghost servers = state.servers@;
    let ghost conns = state.connections@;
    let ghost all = tool_slots(servers, conns, servers.len() as int);
    let ghost tv = views(terms@);
    let mut found: Vec<DiscoveryMatch> = Vec::new();
    let mut i: usize = 0;
    while i < state.servers.len()
        invariant
            i <= servers.len(),
            servers == state.servers@,
            conns == state.connections@,
            state.wf(),
            tv == views(terms@),
            all == tool_slots(servers, conns, servers.len() as int),
            ({
                let p = tool_slots(servers, conns, i as int).len() as int;
                let h = hits(servers, conns, all, tv, p);
                &&& p <= all.len()
                &&& found@.len() == h.len()
                &&& forall|j: int|
                    0 <= j < found@.len() ==> match_of(
                        #[trigger] found@[j],
                        servers[h[j].0],
                        slot_tool(servers, conns, h[j]),
                    )
            }),
        decreases servers.len() - i,
    {
        proof {
            lemma_slots_prefix(servers, conns, i as int, servers.len() as int);
            lemma_slots_prefix(servers, conns, i + 1, servers.len() as int);
        }
        let srv = &state.servers[i];
        let ghost base = tool_slots(servers, conns, i as int).len() as int;
        if srv.status == Some(ServerStatus::Connected) {
            match state.connections.get(srv.id.as_str()) {
                Some(c) => {
                    let mut k: usize = 0;
                    while k < c.tools.len()
                        invariant
                            k <= c.tools@.len(),
                            servers == state.servers@,
                            conns == state.connections@,
                            i < servers.len(),
                            *srv == servers[i as int],
                            conns.contains_key(srv.id@),
                            *c == conns[srv.id@],
                            srv.status == Some(ServerStatus::Connected),
                            tv == views(terms@),
                            all == tool_slots(servers, conns, servers.len() as int),
                            base == tool_slots(servers, conns, i as int).len(),
                            all.subrange(0, tool_slots(servers, conns, i + 1).len() as int)
                                == tool_slots(servers, conns, i + 1),
                            tool_slots(servers, conns, i + 1).len() <= all.len(),
                            ({
                                let h = hits(servers, conns, all, tv, base + k);
                                &&& found@.len() == h.len()
                                &&& forall|j: int|
                                    0 <= j < found@.len() ==> match_of(
                                        #[trigger] found@[j],
                                        servers[h[j].0],
                                        slot_tool(servers, conns, h[j]),
                                    )
                            }),
                        decreases c.tools@.len() - k,
                    {
                        let t = &c.tools[k];
                        proof {
                            let nxt = tool_slots(servers, conns, i + 1);
                            assert(nxt == tool_slots(servers, conns, i as int) + Seq::new(
                                conns[servers[i as int].id@].tools@.len(),
                                |q: int| (i as int, q),
                            ));
                            assert(nxt[base + k] == (i as int, k as int));
                            assert(all[base + k] == nxt[base + k]) by {
                                assert(all.subrange(0, nxt.len() as int)[base + k] == all[base + k]);
                            }
                            assert(slot_tool(servers, conns, all[base + k]) == *t);
                        }
                        let hay = haystack(t);
                        if all_terms_in(terms, &hay) {
                            found.push(match_for(srv, t));
                        }
                        k = k + 1;
                    }
                    proof {
                        assert(tool_slots(servers, conns, i + 1).len() == base + c.tools@.len());
                    }
                },
                None => {
                    proof {
                        assert(tool_slots(servers, conns, i + 1) =~= tool_slots(servers, conns, i as int));
                    }
                },
            }
        } else {
            proof {
                assert(tool_slots(servers, conns, i + 1) =~= tool_slots(servers, conns, i as int));
            }
        }
        i = i + 1;
    }
    proof {
        assert(tool_slots(servers, conns, i as int) == all);
    }
    found
}

/// The terms of a search: the lower-cased query's words.
pub open spec fn search_terms(query: Seq<char>) -> Seq<Seq<char>> {
    words_of(lower_of(query))
}

/// The answer of `discover_tools`: an error for an empty query; the hits
/// (see `search_result`), or a hint text when there are none.
pub open spec fn discover_ok(state: AppState, query: Seq<char>, r: RpcOutcome) -> bool {
    if query.len() == 0 {
        err_out(INVALID_PARAMS, "Missing required argument: query"@)(r)
    } else {
        match r {
            RpcOutcome::Matches(ms) => ms@.len() > 0 && search_result(state, search_terms(query), ms@),
            RpcOutcome::Text { text, is_error } => !is_error && text@ == "No tools found matching '"@
                + query + "'. Try broader terms or use list_servers to see available servers."@
                && search_result(state, search_terms(query), Seq::empty()),
            _ => false,
        }
    }
}

/// Searches every connected backend's tools: all terms of the query must
/// occur, case-insensitively, in a tool's name and description.
pub fn discover_tools(state: &AppState, query: &str) -> (r: RpcOutcome)
    requires
        state.wf(),
    ensures
        discover_ok(*state, query@, r),
{
    if query.is_empty() {
        return RpcOutcome::Error {
            code: INVALID_PARAMS,
            message: "Missing required argument: query".to_owned(),
        };
    }
    let lowered = to_lower(query);
    let terms = split_words(lowered.as_slice());
    let mut found = collect_hits(state, &terms);
    if found.len() > MAX_DISCOVERY_RESULTS {
        found.truncate(MAX_DISCOVERY_RESULTS);
    }
    if found.len() == 0 {
        let head = cat("No tools found matching '", query);
        RpcOutcome::Text {
            text: cat(
                head.as_str(),
                "'. Try broader terms or use list_servers to see available servers.",
            ),
            is_error: false,
        }
    } else {
        RpcOutcome::Matches(found)
    }
}

/// The indices of the connected backends among the first `n`, in order.
pub open spec fn connected_indices(servers: Seq<ServerConfig>, n: int) -> Seq<int>
    decreases n,
{
    if n <= 0 {
        Seq::empty()
    } else if servers[n - 1].status == Some(ServerStatus::Connected) {
        connected_indices(servers, n - 1).push(n - 1)
    } else {
        connected_indices(servers, n - 1)
    }
}

/// `l` lists backend `s` with the names of its cached tools.
pub open spec fn listing_of(l: ServerListing, s: ServerConfig, conns: Map<Seq<char>, ConnectionState>) -> bool {
    let ts = cached_tools(conns, s.id@);
    l.server_id@ == s.id@ && l.server_name@ == s.name@ && l.tool_count == l.tools@.len()
        && l.tools@.len() == ts.len() && forall|k: int|
        0 <= k < ts.len() ==> #[trigger] l.tools@[k] == ts[k].name
}

/// The answer of `list_servers`: each connected backend in order, or a
/// text saying that none is.
pub open spec fn list_ok(state: AppState, r: RpcOutcome) -> bool {
    let idx = connected_indices(state.servers@, state.servers@.len() as int);
    if idx.len() == 0 {
        r matches RpcOutcome::Text { text, is_error } && !is_error && text@
            == "No servers are currently connected."@
    } else {
        r matches RpcOutcome::Servers(ls) && ls@.len() == idx.len() && forall|j: int|
            0 <= j < ls@.len() ==> listing_of(
                #[trigger] ls@[j],
                state.servers@[idx[j]],
                state.connections@,
            )
    }
}

fn listing_for(state: &AppState, s: &ServerConfig) -> (r: ServerListing)
    requires
        state.wf(),
    ensures
        listing_of(r, *s, state.connections@),
{
    let mut names: Vec<String> = Vec::new();
    match state.connections.get(s.id.as_str()) {
        Some(c) => {
            let mut k: usize = 0;
            while k < c.tools.len()
                invariant
                    k <= c.tools@.len(),
                    names@.len() == k,
                    forall|q: int| 0 <= q < k ==> #[trigger] names@[q] == c.tools@[q].name,
                decreases c.tools@.len() - k,
            {
                names.push(c.tools[k].name.clone());
                k = k + 1;
            }
        },
        None => {},
    }
    let n = names.len();
    ServerListing { server_id: s.id.clone(), server_name: s.name.clone(), tool_count: n, tools: names }
}

/// Lists the connected backends and their tool names.
pub fn list_servers(state: &AppState) -> (r: RpcOutcome)
    requires
        state.wf(),
    ensures
        list_ok(*state, r),
{
    let ghost servers = state.servers@;
    let mut out: Vec<ServerListing> = Vec::new();
    let mut i: usize = 0;
    while i < state.servers.len()
        invariant
            i <= servers.len(),
            servers == state.servers@,
            state.wf(),
            ({
                let idx = connected_indices(servers, i as int);
                &&& out@.len() == idx.len()
                &&& forall|j: int|
                    0 <= j < out@.len() ==> listing_of(
                        #[trigger] out@[j],
                        servers[idx[j]],
                        state.connections@,
                    )
            }),
        decreases servers.len() - i,
    {
        if state.servers[i].status == Some(ServerStatus::Connected) {
            out.push(listing_for(state, &state.servers[i]));
        }
        i = i + 1;
    }
    if out.len() == 0 {
        RpcOutcome::Text { text: "No servers are currently connected.".to_owned(), is_error: false }
    } else {
        RpcOutcome::Servers(out)
    }
}

/// How the discovery endpoint answers a request, before any tool call.
pub open spec fn discovery_route_ok(state: AppState, req: RequestInfo, args: DiscoveryArgs, r: GatewayStep) -> bool {
    if !req.has_id {
        r is Accepted
    } else if !state.tool_discovery_enabled {
        is_error_reply(r, NOT_ENABLED, "Tool discovery mode is not enabled"@)
    } else if req.method@ == "initialize"@ {
        r matches GatewayStep::Reply(RpcOutcome::Initialize { protocol_version, server_name, list_changed })
            && protocol_version@ == "2025-03-26"@ && server_name@ == gateway_name("Tool Discovery"@)
            && !list_changed
    } else if req.method@ == "tools/list"@ {
        r matches GatewayStep::Reply(RpcOutcome::DiscoveryTools)
    } else if req.method@ == "tools/call"@ {
        if !req.has_params {
            is_error_reply(r, INVALID_PARAMS, "Missing params for tools/call"@)
        } else if req.tool_name is None {
            is_error_reply(r, INVALID_PARAMS, "Missing tool name in params"@)
        } else {
            let t = req.tool_name.unwrap()@;
            if t == "discover_tools"@ {
                r matches GatewayStep::Reply(o) && discover_ok(state, match args.query {
                    Some(q) => q@,
                    None => Seq::empty(),
                }, o)
            } else if t == "list_servers"@ {
                r matches GatewayStep::Reply(o) && list_ok(state, o)
            } else if t == "call_tool"@ {
                match (args.server_id, args.tool_name) {
                    (None, _) => is_error_reply(r, INVALID_PARAMS, "Missing required argument: server_id"@),
                    (Some(_), None) => is_error_reply(r, INVALID_PARAMS, "Missing required argument: tool_name"@),
                    (Some(sid), Some(tn)) => {
                        let i = first_server(state.servers@, sid@);
                        if i < 0 {
                            is_error_reply(r, INVALID_PARAMS, "No server found with ID: "@ + sid@)
                        } else {
                            r matches GatewayStep::CallTool { server_id, server_name, tool_name }
                                && server_id == sid && server_name@ == state.servers@[i].name@
                                && tool_name == tn
                        }
                    },
                }
            } else {
                is_error_reply(
                    r,
                    INVALID_PARAMS,
                    "Unknown discovery tool: "@ + t + ". Available: discover_tools, call_tool, list_servers"@,
                )
            }
        }
    } else {
        is_error_reply(r, METHOD_NOT_FOUND, "Method not found: "@ + req.method@)
    }
}

/// Routes a POST to the discovery endpoint (see `discovery_route_ok`).
pub fn route_discovery(state: &AppState, req: RequestInfo, args: DiscoveryArgs) -> (r: GatewayStep)
    requires
        state.wf(),
    ensures
        discovery_route_ok(*state, req, args, r),
{
    if !req.has_id {
        return GatewayStep::Accepted;
    }
    if !state.tool_discovery_enabled {
        return error_reply(NOT_ENABLED, "Tool discovery mode is not enabled".to_owned());
    }
    if is_method(&req.method, "initialize") {
        return GatewayStep::Reply(
            RpcOutcome::Initialize {
                protocol_version: "2025-03-26".to_owned(),
                server_name: cat("MCP Manager \u{2014} ", "Tool Discovery"),
                list_changed: false,
            },
        );
    }
    if is_method(&req.method, "tools/list") {
        return GatewayStep::Reply(RpcOutcome::DiscoveryTools);
    }
    if !is_method(&req.method, "tools/call") {
        return error_reply(METHOD_NOT_FOUND, cat("Method not found: ", req.method.as_str()));
    }
    if !req.has_params {
        return error_reply(INVALID_PARAMS, "Missing params for tools/call".to_owned());
    }
    let t = match &req.tool_name {
        None => {
            return error_reply(INVALID_PARAMS, "Missing tool name in params".to_owned());
        },
        Some(t) => t,
    };
    if is_method(t, "discover_tools") {
        let q = match &args.query {
            Some(q) => q.clone(),
            None => String::new(),
        };
        GatewayStep::Reply(discover_tools(state, q.as_str()))
    } else if is_method(t, "list_servers") {
        GatewayStep::Reply(list_servers(state))
    } else if is_method(t, "call_tool") {
        let sid = match args.server_id {
            None => {
                return error_reply(
                    INVALID_PARAMS,
                    "Missing required argument: server_id".to_owned(),
                );
            },
            Some(s) => s,
        };
        let tn = match args.tool_name {
            None => {
                return error_reply(
                    INVALID_PARAMS,
                    "Missing required argument: tool_name".to_owned(),
                );
            },
            Some(s) => s,
        };
        match state.find_server(sid.as_str()) {
            None => error_reply(INVALID_PARAMS, cat("No server found with ID: ", sid.as_str())),
            Some(i) => GatewayStep::CallTool {
                server_id: sid,
                server_name: state.servers[i].name.clone(),
                tool_name: tn,
            },
        }
    } else {
        let head = cat("Unknown discovery tool: ", t.as_str());
        error_reply(
            INVALID_PARAMS,
            cat(head.as_str(), ". Available: discover_tools, call_tool, list_servers"),
        )
    }
}

/// `i` is the first of `ts` named `name`.
pub open spec fn is_first_named(ts: Seq<McpTool>, name: Seq<char>, i: int) -> bool {
    0 <= i < ts.len() && ts[i].name@ == name && forall|j: int|
        0 <= j < i ==> #[trigger] ts[j].name@ != name
}

pub open spec fn first_named(ts: Seq<McpTool>, name: Seq<char>) -> int {
    choose|i: int| is_first_named(ts, name, i)
}

/// The schema text of the first cached tool of a backend with that name.
pub open spec fn known_schema(conns: Map<Seq<char>, ConnectionState>, server_id: Seq<char>, name: Seq<char>) -> Option<Seq<char>> {
    let ts = cached_tools(conns, server_id);
    if exists|i: int| is_first_named(ts, name, i) {
        match ts[first_named(ts, name)].input_schema {
            Some(s) => Some(s.json@),
            None => None,
        }
    } else {
        None
    }
}

/// The hint added to a failed routed call: the tool's expected schema.
pub open spec fn schema_hint(schema: Option<Seq<char>>, tool: Seq<char>) -> Seq<char> {
    match schema {
        Some(s) => "\n\nExpected inputSchema for '"@ + tool + "':\n"@ + s,
        None => Seq::empty(),
    }
}

/// The schema text of the tool `tool_name` of backend `server_id`.
pub fn lookup_tool_schema(state: &AppState, server_id: &str, tool_name: &str) -> (r: Option<String>)
    requires
        state.wf(),
    ensures
        match known_schema(state.connections@, server_id@, tool_name@) {
            Some(s) => r matches Some(x) && x@ == s,
            None => r is None,
        },
{
    let c = match state.connections.get(server_id) {
        None => {
            return None;
        },
        Some(c) => c,
    };
    let ghost ts = cached_tools(state.connections@, server_id@);
    let tn = chars_of(tool_name);
    let mut i: usize = 0;
    while i < c.tools.len()
        invariant
            i <= c.tools@.len(),
            ts == c.tools@,
            ts == cached_tools(state.connections@, server_id@),
            tn@ == tool_name@,
            forall|j: int| 0 <= j < i ==> #[trigger] ts[j].name@ != tool_name@,
        decreases c.tools@.len() - i,
    {
        if eq_chars(chars_of(c.tools[i].name.as_str()).as_slice(), tn.as_slice()) {
            proof {
                assert(is_first_named(ts, tool_name@, i as int));
                let k = first_named(ts, tool_name@);
                if k < i {
                    assert(ts[k].name@ != tool_name@);
                } else if k > i {
                    assert(ts[i as int].name@ != tool_name@);
                }
                assert(first_named(ts, tool_name@) == i as int);
                assert(cached_tools(state.connections@, server_id@) == ts);
            }
            return match &c.tools[i].input_schema {
                Some(s) => Some(s.json.clone()),
                None => None,
            };
        }
        i = i + 1;
    }
    proof {
        if exists|k: int| is_first_named(ts, tool_name@, k) {
            let k = choose|k: int| is_first_named(ts, tool_name@, k);
            assert(ts[k].name@ != tool_name@);
        }
    }
    None
}

/// The text of a tool's own error: its first content item's text.
pub open spec fn first_text(c: CallToolResult) -> Seq<char> {
    if c.content@.len() > 0 && c.content@[0].text is Some {
        c.content@[0].text.unwrap()@
    } else {
        "Tool returned an error"@
    }
}

/// The reply for a call routed through the discovery endpoint, and whether
/// it counts as an error. A tool error or a failed call comes back as an
/// error text with the tool's expected schema, so the caller can correct
/// its arguments.
pub fn discovery_call_outcome(
    state: &AppState,
    server_id: &str,
    tool_name: &str,
    result: Result<CallToolResult, AppError>,
) -> (r: (RpcOutcome, bool))
    requires
        state.wf(),
    ensures
        ({
            let hint = schema_hint(known_schema(state.connections@, server_id@, tool_name@), tool_name@);
            match result {
                Ok(c) => if c.is_error == Some(true) {
                    r.0 matches RpcOutcome::Text { text, is_error } && is_error && text@
                        == first_text(c) + hint && r.1
                } else {
                    r.0 matches RpcOutcome::ToolResult(x) && x == c && !r.1
                },
                Err(e) => r.0 matches RpcOutcome::Text { text, is_error } && is_error && text@
                    == "Tool call failed: "@ + error_text(e) + hint && r.1,
            }
        }),
{
    let schema = lookup_tool_schema(state, server_id, tool_name);
    let hint = match &schema {
        Some(s) => {
            let a = cat("\n\nExpected inputSchema for '", tool_name);
            let b = cat(a.as_str(), "':\n");
            cat(b.as_str(), s.as_str())
        },
        None => String::new(),
    };
    match result {
        Ok(c) => {
            if c.is_error == Some(true) {
                let first: String = if c.content.len() > 0 {
                    match &c.content[0].text {
                        Some(t) => t.clone(),
                        None => "Tool returned an error".to_owned(),
                    }
                } else {
                    "Tool returned an error".to_owned()
                };
                (RpcOutcome::Text { text: cat(first.as_str(), hint.as_str()), is_error: true }, true)
            } else {
                (RpcOutcome::ToolResult(c), false)
            }
        },
        Err(e) => {
            let head = cat("Tool call failed: ", e.to_message().as_str());
            (RpcOutcome::Text { text: cat(head.as_str(), hint.as_str()), is_error: true }, true)
        },
    }
}

/// Relies on `Hash for [String]` with `DefaultHasher::new` (whose instances
/// all start alike): the result depends on the names alone.
pub uninterp spec fn names_hash_of(names: Seq<Seq<char>>) -> u64;

/// Relies on `Hash for [String]` and `DefaultHasher`.
#[verifier::external_body]
fn hash_strings(names: &Vec<String>) -> (r: u64)
    ensures
        r == names_hash_of(string_views(names@)),
{
    let mut hasher = std::collections::hash_map::DefaultHasher::new();
    names.as_slice().hash(&mut hasher);
    hasher.finish()
}

/// `a` is at most `b` in the order of `String`'s `Ord`: lexicographic by
/// UTF-8 bytes, which orders like the characters' code points.
pub open spec fn text_le(a: Seq<char>, b: Seq<char>) -> bool
    decreases a.len(),
{
    if a.len() == 0 {
        true
    } else if b.len() == 0 {
        false
    } else if a[0] < b[0] {
        true
    } else if a[0] > b[0] {
        false
    } else {
        text_le(a.drop_first(), b.drop_first())
    }
}

/// The texts are in ascending order.
pub open spec fn sorted_texts(s: Seq<Seq<char>>) -> bool {
    forall|i: int, j: int| 0 <= i < j < s.len() ==> text_le(#[trigger] s[i], #[trigger] s[j])
}

/// Relies on `slice::sort`: the same strings, in ascending order.
#[verifier::external_body]
fn sort_strings(names: &mut Vec<String>)
    ensures
        string_views(final(names)@).to_multiset() == string_views(old(names)@).to_multiset(),
        sorted_texts(string_views(final(names)@)),
{
    names.sort();
}

/// The names of the tools, in order.
pub open spec fn tool_names(tools: Seq<McpTool>) -> Seq<Seq<char>> {
    tools.map_values(|t: McpTool| t.name@)
}

/// `h` is the hash of the tools' names in ascending order.
pub open spec fn hashed_names(tools: Seq<McpTool>, h: u64) -> bool {
    exists|s: Seq<Seq<char>>|
        s.to_multiset() == tool_names(tools).to_multiset() && sorted_texts(s) && h
            == names_hash_of(s)
}

/// A hash of a backend's sorted tool names, to tell a changed tool list
/// from the same list seen again.
pub fn hash_tool_names(tools: &[McpTool]) -> (r: u64)
    ensures
        hashed_names(tools@, r),
{
    let mut names: Vec<String> = Vec::new();
    let mut i: usize = 0;
    while i < tools.len()
        invariant
            i <= tools@.len(),
            string_views(names@) == tool_names(tools@.subrange(0, i as int)),
        decreases tools@.len() - i,
    {
        let ghost before = string_views(names@);
        let n = tools[i].name.clone();
        assert(n@ == tools@[i as int].name@);
        names.push(n);
        assert(string_views(names@) =~= before.push(tools@[i as int].name@));
        assert(tool_names(tools@.subrange(0, i + 1)) =~= tool_names(tools@.subrange(0, i as int)).push(
            tools@[i as int].name@,
        ));
        i = i + 1;
    }
    assert(tools@.subrange(0, i as int) =~= tools@);
    sort_strings(&mut names);
    let r = hash_strings(&names);
    assert(string_views(names@).to_multiset() == tool_names(tools@).to_multiset() && sorted_texts(
        string_views(names@),
    ) && r == names_hash_of(string_views(names@)));
    r
}

proof fn lemma_text_le_antisymmetric(a: Seq<char>, b: Seq<char>)
    requires
        text_le(a, b),
        text_le(b, a),
    ensures
        a == b,
    decreases a.len(),
{
    if a.len() == 0 {
        assert(a =~= b);
    } else {
        lemma_text_le_antisymmetric(a.drop_first(), b.drop_first());
        assert(a =~= b) by {
            assert forall|k: int| 0 <= k < a.len() implies a[k] == b[k] by {
                if k > 0 {
                    assert(a[k] == a.drop_first()[k - 1]);
                    assert(b[k] == b.drop_first()[k - 1]);
                }
            }
        }
    }
}

/// Two ascending lists of the same texts are the same list.
pub proof fn lemma_sorted_unique(a: Seq<Seq<char>>, b: Seq<Seq<char>>)
    requires
        sorted_texts(a),
        sorted_texts(b),
        a.to_multiset() == b.to_multiset(),
    ensures
        a == b,
    decreases a.len(),
{
    broadcast use vstd::seq_lib::group_to_multiset_ensures;

    if a.len() == 0 {
        assert(b.to_multiset().len() == 0);
        assert(a =~= b);
    } else {
        assert(b.to_multiset().len() == a.len());
        assert(a.to_multiset().count(a[0]) > 0) by {
            assert(a.contains(a[0]));
        }
        assert(b.contains(a[0]));
        let k = choose|k: int| 0 <= k < b.len() && b[k] == a[0];
        assert(b.to_multiset().count(b[0]) > 0) by {
            assert(b.contains(b[0]));
        }
        assert(a.contains(b[0]));
        let m = choose|m: int| 0 <= m < a.len() && a[m] == b[0];
        if k > 0 && m > 0 {
            assert(text_le(b[0], b[k]));
            assert(text_le(a[0], a[m]));
            lemma_text_le_antisymmetric(a[0], b[0]);
        }
        assert(a[0] == b[0]);
        vstd::seq_lib::to_multiset_remove(a, 0);
        vstd::seq_lib::to_multiset_remove(b, 0);
        assert(a.remove(0) =~= a.drop_first());
        assert(b.remove(0) =~= b.drop_first());
        assert(sorted_texts(a.drop_first())) by {
            assert forall|i: int, j: int| 0 <= i < j < a.drop_first().len() implies text_le(
                #[trigger] a.drop_first()[i],
                #[trigger] a.drop_first()[j],
            ) by {
                assert(text_le(a[i + 1], a[j + 1]));
            }
        }
        assert(sorted_texts(b.drop_first())) by {
            assert forall|i: int, j: int| 0 <= i < j < b.drop_first().len() implies text_le(
                #[trigger] b.drop_first()[i],
                #[trigger] b.drop_first()[j],
            ) by {
                assert(text_le(b[i + 1], b[j + 1]));
            }
        }
        lemma_sorted_unique(a.drop_first(), b.drop_first());
        assert(a =~= b) by {
            assert forall|k: int| 0 <= k < a.len() implies a[k] == b[k] by {
                if k > 0 {
                    assert(a[k] == a.drop_first()[k - 1]);
                    assert(b[k] == b.drop_first()[k - 1]);
                }
            }
        }
    }
}

/// Tool lists with the same names, in any order, hash alike: a reconnect
/// that brings back the same tools signals no change.
pub proof fn lemma_permuted_tools_hash_alike(t1: Seq<McpTool>, t2: Seq<McpTool>, h1: u64, h2: u64)
    requires
        tool_names(t1).to_multiset() == tool_names(t2).to_multiset(),
        hashed_names(t1, h1),
        hashed_names(t2, h2),
    ensures
        h1 == h2,
{
    let s1 = choose|s: Seq<Seq<char>>|
        s.to_multiset() == tool_names(t1).to_multiset() && sorted_texts(s) && h1
            == names_hash_of(s);
    let s2 = choose|s: Seq<Seq<char>>|
        s.to_multiset() == tool_names(t2).to_multiset() && sorted_texts(s) && h2
            == names_hash_of(s);
    lemma_sorted_unique(s1, s2);
}

/// The tool-list hash last announced for each endpoint.
pub struct ToolListHashes {
    hashes: KeyedTable<u64>,
}

impl View for ToolListHashes {
    type V = Map<Seq<char>, u64>;

    closed spec fn view(&self) -> Map<Seq<char>, u64> {
        self.hashes@
    }
}

/// Whether a change is announced for `id` given its new hash, and what is
/// remembered afterwards.
pub open spec fn notify_spec(m: Map<Seq<char>, u64>, id: Seq<char>, h: u64) -> (bool, Map<Seq<char>, u64>) {
    if m.contains_key(id) && m[id] == h {
        (false, m)
    } else {
        (true, m.insert(id, h))
    }
}

impl ToolListHashes {
    pub closed spec fn wf(&self) -> bool {
        self.hashes.wf()
    }

    pub fn new() -> (r: Self)
        ensures
            r.wf(),
            r@ == Map::<Seq<char>, u64>::empty(),
    {
        ToolListHashes { hashes: KeyedTable::new() }
    }

    /// Records the new hash of `server_id`'s tools and says whether the list
    /// really changed, so that callers are told only then.
    pub fn should_notify(&mut self, server_id: &str, new_hash: u64) -> (r: bool)
        requires
            old(self).wf(),
        ensures
            final(self).wf(),
            (r, final(self)@) == notify_spec(old(self)@, server_id@, new_hash),
    {
        match self.hashes.get(server_id) {
            Some(h) if *h == new_hash => false,
            _ => {
                self.hashes.insert(server_id.to_owned(), new_hash);
                true
            },
        }
    }
}

/// The same tool list reported twice in a row is announced once: after a
/// hash has been recorded, recording it again announces nothing and
/// changes nothing.
pub proof fn lemma_repeat_not_announced(m: Map<Seq<char>, u64>, id: Seq<char>, h: u64)
    ensures
        !notify_spec(notify_spec(m, id, h).1, id, h).0,
        notify_spec(notify_spec(m, id, h).1, id, h).1 == notify_spec(m, id, h).1,
        (!m.contains_key(id) || m[id] != h) ==> notify_spec(m, id, h).0,
{
}

pub const PORT_RANGE_START: u16 = 55000;

pub const PORT_RANGE_SIZE: u16 = 10000;

pub const PORT_ATTEMPTS: u16 = 20;

/// The port a user prefers, from a hash of the user's name: the same user
/// gets the same port across restarts.
pub fn preferred_port(user_hash: u64) -> (r: u16)
    ensures
        r == PORT_RANGE_START + user_hash % (PORT_RANGE_SIZE as u64),
{
    PORT_RANGE_START + (user_hash % (PORT_RANGE_SIZE as u64)) as u16
}

/// The ports to try, in order: the preferred one, then the next ones,
/// wrapping within the range.
pub fn candidate_ports(base: u16) -> (r: Vec<u16>)
    requires
        PORT_RANGE_START <= base < PORT_RANGE_START + PORT_RANGE_SIZE,
    ensures
        r@.len() == PORT_ATTEMPTS,
        forall|k: int|
            0 <= k < PORT_ATTEMPTS ==> #[trigger] r@[k] == PORT_RANGE_START + (base
                - PORT_RANGE_START + k) % (PORT_RANGE_SIZE as int),
{
    let mut r: Vec<u16> = Vec::new();
    let mut k: u16 = 0;
    while k < PORT_ATTEMPTS
        invariant
            k <= PORT_ATTEMPTS,
            PORT_RANGE_START <= base < PORT_RANGE_START + PORT_RANGE_SIZE,
            r@.len() == k,
            forall|j: int|
                0 <= j < k ==> #[trigger] r@[j] == PORT_RANGE_START + (base - PORT_RANGE_START
                    + j) % (PORT_RANGE_SIZE as int),
        decreases PORT_ATTEMPTS - k,
    {
        r.push(PORT_RANGE_START + ((base - PORT_RANGE_START + k) % PORT_RANGE_SIZE));
        k = k + 1;
    }
    r
}

/// A message without an id is only acknowledged, at every endpoint: the
/// reply is "accepted, no body" whatever the method, the backend or the
/// discovery switch (and the routing reads the state without changing it).
pub proof fn lemma_notifications_only_acknowledged(
    state: AppState,
    server_id: Seq<char>,
    req: RequestInfo,
    args: DiscoveryArgs,
    on_backend: GatewayStep,
    on_discovery: GatewayStep,
)
    requires
        !req.has_id,
        backend_route_ok(state, server_id, req, on_backend),
        discovery_route_ok(state, req, args, on_discovery),
    ensures
        on_backend is Accepted,
        on_discovery is Accepted,
{
}

/// A tool call on an id that names no backend fails with an error that
/// names the id.
pub proof fn lemma_unknown_backend_call_names_id(
    state: AppState,
    server_id: Seq<char>,
    req: RequestInfo,
    r: GatewayStep,
)
    requires
        backend_route_ok(state, server_id, req, r),
        req.has_id,
        first_server(state.servers@, server_id) < 0,
    ensures
        r matches GatewayStep::Reply(RpcOutcome::Error { message, .. }) && contains(
            message@,
            server_id,
        ),
{
    let m = "No server found with ID: "@ + server_id;
    let k = "No server found with ID: "@.len() as int;
    assert(m.subrange(k, k + server_id.len()) =~= server_id);
    assert(crate::text::occurs_at(m, server_id, k));
}

} // verus!
