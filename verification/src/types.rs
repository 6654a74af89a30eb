//! Shared data model: backend and application configuration, connection
//! states, capability snapshots and status read models.

use vstd::prelude::*;
use crate::json::{JsonV, JsonValue};

verus! {

/// Transport used to reach an MCP server.
#[derive(Clone, Copy, Debug, PartialEq, Eq, Structural)]
pub enum TransportType {
    Stdio,
    Sse,
    StreamableHttp,
}

/// Connection state machine of one backend.
#[derive(Clone, Copy, Debug, PartialEq, Eq, Structural)]
pub enum ConnectionState {
    Disconnected,
    Connecting,
    Connected,
    Error,
    Reconnecting,
}

/// Configuration of a single MCP server.
#[derive(Clone, Debug)]
pub struct McpServerConfig {
    pub id: String,
    pub name: String,
    pub transport_type: TransportType,
    pub command: Option<String>,
    pub args: Option<Vec<String>>,
    pub url: Option<String>,
    pub env: Option<Vec<(String, String)>>,
    pub headers: Option<Vec<(String, String)>>,
    pub enabled: bool,
    pub disabled_tools: Vec<String>,
    pub disabled_resources: Vec<String>,
}

/// Mathematical form of [`McpServerConfig`].
pub struct McpServerConfigV {
    pub id: Seq<char>,
    pub name: Seq<char>,
    pub transport_type: TransportType,
    pub command: Option<Seq<char>>,
    pub args: Option<Seq<Seq<char>>>,
    pub url: Option<Seq<char>>,
    pub env: Option<Seq<(Seq<char>, Seq<char>)>>,
    pub headers: Option<Seq<(Seq<char>, Seq<char>)>>,
    pub enabled: bool,
    pub disabled_tools: Seq<Seq<char>>,
    pub disabled_resources: Seq<Seq<char>>,
}

impl View for McpServerConfig {
    type V = McpServerConfigV;

    open spec fn view(&self) -> McpServerConfigV {
        McpServerConfigV {
            id: self.id@,
            name: self.name@,
            transport_type: self.transport_type,
            command: self.command.deep_view(),
            args: self.args.deep_view(),
            url: self.url.deep_view(),
            env: self.env.deep_view(),
            headers: self.headers.deep_view(),
            enabled: self.enabled,
            disabled_tools: self.disabled_tools.deep_view(),
            disabled_resources: self.disabled_resources.deep_view(),
        }
    }
}

impl DeepView for McpServerConfig {
    type V = McpServerConfigV;

    open spec fn deep_view(&self) -> McpServerConfigV {
        self.view()
    }
}

/// Application-level configuration.
#[derive(Clone, Debug)]
pub struct AppConfig {
    pub proxy_port: u16,
    pub health_check_interval_secs: u64,
    pub auto_reconnect: bool,
    pub max_reconnect_attempts: u32,
    pub connection_timeout_secs: u64,
    pub mcps: Vec<McpServerConfig>,
}

/// Mathematical form of [`AppConfig`].
pub struct AppConfigV {
    pub proxy_port: u16,
    pub health_check_interval_secs: u64,
    pub auto_reconnect: bool,
    pub max_reconnect_attempts: u32,
    pub connection_timeout_secs: u64,
    pub mcps: Seq<McpServerConfigV>,
}

impl View for AppConfig {
    type V = AppConfigV;

    open spec fn view(&self) -> AppConfigV {
        AppConfigV {
            proxy_port: self.proxy_port,
            health_check_interval_secs: self.health_check_interval_secs,
            auto_reconnect: self.auto_reconnect,
            max_reconnect_attempts: self.max_reconnect_attempts,
            connection_timeout_secs: self.connection_timeout_secs,
            mcps: self.mcps.deep_view(),
        }
    }
}

impl DeepView for AppConfig {
    type V = AppConfigV;

    open spec fn deep_view(&self) -> AppConfigV {
        self.view()
    }
}

/// Tool advertised by a backend.
#[derive(Debug)]
pub struct Tool {
    pub name: String,
    pub description: Option<String>,
    pub input_schema: JsonValue,
}

/// Mathematical form of [`Tool`].
pub struct ToolV {
    pub name: Seq<char>,
    pub description: Option<Seq<char>>,
    pub input_schema: JsonV,
}

impl View for Tool {
    type V = ToolV;

    open spec fn view(&self) -> ToolV {
        ToolV {
            name: self.name@,
            description: self.description.deep_view(),
            input_schema: self.input_schema@,
        }
    }
}

impl DeepView for Tool {
    type V = ToolV;

    open spec fn deep_view(&self) -> ToolV {
        self.view()
    }
}

/// Resource advertised by a backend.
#[derive(Clone, Debug)]
pub struct Resource {
    pub uri: String,
    pub name: Option<String>,
    pub description: Option<String>,
    pub mime_type: Option<String>,
}

/// Mathematical form of [`Resource`].
pub struct ResourceV {
    pub uri: Seq<char>,
    pub name: Option<Seq<char>>,
    pub description: Option<Seq<char>>,
    pub mime_type: Option<Seq<char>>,
}

impl View for Resource {
    type V = ResourceV;

    open spec fn view(&self) -> ResourceV {
        ResourceV {
            uri: self.uri@,
            name: self.name.deep_view(),
            description: self.description.deep_view(),
            mime_type: self.mime_type.deep_view(),
        }
    }
}

impl DeepView for Resource {
    type V = ResourceV;

    open spec fn deep_view(&self) -> ResourceV {
        self.view()
    }
}

/// Status snapshot of a single backend, as the GUI reads it.
#[derive(Clone, Debug)]
pub struct McpStatus {
    pub id: String,
    pub name: String,
    pub state: ConnectionState,
    pub transport_type: TransportType,
    pub connected_at: Option<String>,
    pub last_ping: Option<String>,
    pub error_message: Option<String>,
    pub tools_count: usize,
    pub resources_count: usize,
    pub uptime_seconds: Option<u64>,
    pub proxy_url: Option<String>,
}

/// Mathematical form of [`McpStatus`].
pub struct McpStatusV {
    pub id: Seq<char>,
    pub name: Seq<char>,
    pub state: ConnectionState,
    pub transport_type: TransportType,
    pub connected_at: Option<Seq<char>>,
    pub last_ping: Option<Seq<char>>,
    pub error_message: Option<Seq<char>>,
    pub tools_count: usize,
    pub resources_count: usize,
    pub uptime_seconds: Option<u64>,
    pub proxy_url: Option<Seq<char>>,
}

impl View for McpStatus {
    type V = McpStatusV;

    open spec fn view(&self) -> McpStatusV {
        McpStatusV {
            id: self.id@,
            name: self.name@,
            state: self.state,
            transport_type: self.transport_type,
            connected_at: self.connected_at.deep_view(),
            last_ping: self.last_ping.deep_view(),
            error_message: self.error_message.deep_view(),
            tools_count: self.tools_count,
            resources_count: self.resources_count,
            uptime_seconds: self.uptime_seconds,
            proxy_url: self.proxy_url.deep_view(),
        }
    }
}

impl DeepView for McpStatus {
    type V = McpStatusV;

    open spec fn deep_view(&self) -> McpStatusV {
        self.view()
    }
}

/// Full read model of a single backend: configuration, status and caches.
#[derive(Debug)]
pub struct McpDetail {
    pub config: McpServerConfig,
    pub status: McpStatus,
    pub tools: Vec<Tool>,
    pub resources: Vec<Resource>,
}

/// One captured log line.
#[derive(Clone, Debug)]
pub struct LogEntry {
    pub timestamp: String,
    pub level: String,
    pub target: String,
    pub message: String,
}

/// No two pairs of a string table share a key. The tables behind `env` and
/// `headers` bind each key once; the pair-list form carries that as an
/// invariant rather than by construction.
pub open spec fn pairs_keys_unique(ps: Seq<(Seq<char>, Seq<char>)>) -> bool {
    forall|i: int, j: int| 0 <= i < j < ps.len() ==> (#[trigger] ps[i]).0 != (#[trigger] ps[j]).0
}

/// Whether some pair of the table binds this key.
pub open spec fn spec_has_pair_key(ps: Seq<(Seq<char>, Seq<char>)>, k: Seq<char>) -> bool {
    exists|i: int| 0 <= i < ps.len() && (#[trigger] ps[i]).0 == k
}

impl McpServerConfig {
    /// The table fields are well-formed: neither `env` nor `headers` binds
    /// a key twice.
    pub open spec fn wf(&self) -> bool {
        &&& (self@.env matches Option::Some(t) ==> pairs_keys_unique(t))
        &&& (self@.headers matches Option::Some(t) ==> pairs_keys_unique(t))
    }
}

/// A copy of an optional string, with the same characters.
pub fn dup_opt_string(o: &Option<String>) -> (r: Option<String>)
    ensures
        r.deep_view() == o.deep_view(),
{
    match o {
        Option::Some(s) => Option::Some(s.clone()),
        Option::None => Option::None,
    }
}

/// A copy of a string vector, with the same elements.
pub fn dup_string_vec(v: &Vec<String>) -> (r: Vec<String>)
    ensures
        r@ == v@,
        r.deep_view() == v.deep_view(),
{
    let r = v.clone();
    proof {
        assert forall|i: int| 0 <= i < v@.len() implies r@[i] == v@[i] by {
            assert(cloned::<String>(v[i], r[i]));
        }
        assert(r@ =~= v@);
        assert(r.deep_view() =~= v.deep_view());
    }
    r
}

/// A copy of a string-pair vector, with the same elements.
pub fn dup_pair_vec(v: &Vec<(String, String)>) -> (r: Vec<(String, String)>)
    ensures
        r@ == v@,
        r.deep_view() == v.deep_view(),
{
    let n = v.len();
    let mut out: Vec<(String, String)> = Vec::new();
    let mut i: usize = 0;
    while i < n
        invariant
            n == v@.len(),
            i <= n,
            out@.len() == i,
            forall|k: int| 0 <= k < i ==> #[trigger] out@[k] == v@[k],
        decreases n - i,
    {
        let p = &v[i];
        out.push((p.0.clone(), p.1.clone()));
        i = i + 1;
    }
    proof {
        assert(out@ =~= v@);
        assert(out.deep_view() =~= v.deep_view());
    }
    out
}

impl McpServerConfig {
    /// A copy of this configuration, equal in every field.
    pub fn duplicate(&self) -> (r: Self)
        ensures
            r@ == self@,
    {
        McpServerConfig {
            id: self.id.clone(),
            name: self.name.clone(),
            transport_type: self.transport_type,
            command: dup_opt_string(&self.command),
            args: match &self.args {
                Option::Some(v) => Option::Some(dup_string_vec(v)),
                Option::None => Option::None,
            },
            url: dup_opt_string(&self.url),
            env: match &self.env {
                Option::Some(v) => Option::Some(dup_pair_vec(v)),
                Option::None => Option::None,
            },
            headers: match &self.headers {
                Option::Some(v) => Option::Some(dup_pair_vec(v)),
                Option::None => Option::None,
            },
            enabled: self.enabled,
            disabled_tools: dup_string_vec(&self.disabled_tools),
            disabled_resources: dup_string_vec(&self.disabled_resources),
        }
    }
}

impl Tool {
    /// A copy of this tool description, equal in every field.
    pub fn duplicate(&self) -> (r: Self)
        ensures
            r@ == self@,
    {
        Tool {
            name: self.name.clone(),
            description: dup_opt_string(&self.description),
            input_schema: self.input_schema.duplicate(),
        }
    }
}

impl Resource {
    /// A copy of this resource description, equal in every field.
    pub fn duplicate(&self) -> (r: Self)
        ensures
            r@ == self@,
    {
        Resource {
            uri: self.uri.clone(),
            name: dup_opt_string(&self.name),
            description: dup_opt_string(&self.description),
            mime_type: dup_opt_string(&self.mime_type),
        }
    }
}

/// A copy of a tool vector, with element views kept.
pub fn dup_tool_vec(v: &Vec<Tool>) -> (r: Vec<Tool>)
    ensures
        r.deep_view() == v.deep_view(),
{
    let n = v.len();
    let mut out: Vec<Tool> = Vec::new();
    let mut i: usize = 0;
    while i < n
        invariant
            n == v@.len(),
            i <= n,
            out@.len() == i,
            forall|k: int| 0 <= k < i ==> #[trigger] out@[k]@ == v@[k]@,
        decreases n - i,
    {
        out.push(v[i].duplicate());
        i = i + 1;
    }
    proof {
        assert(out.deep_view() =~= v.deep_view());
    }
    out
}

/// A copy of a resource vector, with element views kept.
pub fn dup_resource_vec(v: &Vec<Resource>) -> (r: Vec<Resource>)
    ensures
        r.deep_view() == v.deep_view(),
{
    let n = v.len();
    let mut out: Vec<Resource> = Vec::new();
    let mut i: usize = 0;
    while i < n
        invariant
            n == v@.len(),
            i <= n,
            out@.len() == i,
            forall|k: int| 0 <= k < i ==> #[trigger] out@[k]@ == v@[k]@,
        decreases n - i,
    {
        out.push(v[i].duplicate());
        i = i + 1;
    }
    proof {
        assert(out.deep_view() =~= v.deep_view());
    }
    out
}

/// Default for a backend's `enabled` flag.
pub fn default_true() -> (r: bool)
    ensures
        r == true,
{
    true
}

/// Default TCP port of the proxy gateway.
pub fn default_proxy_port() -> (r: u16)
    ensures
        r == 3001,
{
    3001
}

/// Default pause, in seconds, between two health cycles.
pub fn default_health_interval() -> (r: u64)
    ensures
        r == 30,
{
    30
}

/// Default cap on reconnect attempts for a backend that keeps failing.
pub fn default_max_reconnect() -> (r: u32)
    ensures
        r == 5,
{
    5
}

/// Default timeout, in seconds, for opening a transport.
pub fn default_connection_timeout() -> (r: u64)
    ensures
        r == 30,
{
    30
}

/// The configuration used when no file exists yet.
pub open spec fn spec_default_config() -> AppConfigV {
    AppConfigV {
        proxy_port: 3001,
        health_check_interval_secs: 30,
        auto_reconnect: true,
        max_reconnect_attempts: 5,
        connection_timeout_secs: 30,
        mcps: Seq::empty(),
    }
}

impl Default for AppConfig {
    /// The configuration used when no file exists yet.
    fn default() -> (r: Self)
        ensures
            r@ == spec_default_config(),
    {
        let r = AppConfig {
            proxy_port: default_proxy_port(),
            health_check_interval_secs: default_health_interval(),
            auto_reconnect: true,
            max_reconnect_attempts: default_max_reconnect(),
            connection_timeout_secs: default_connection_timeout(),
            mcps: Vec::new(),
        };
        proof {
            assert(r@.mcps =~= spec_default_config().mcps);
        }
        r
    }
}

} // verus!
