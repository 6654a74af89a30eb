//! Per-backend connection supervision: the lifecycle state machine, the
//! capability caches and the status read model.
//!
//! Opening, driving and closing a transport is I/O and happens outside the
//! library; the outside caller reports what happened through the transition
//! methods here (`begin_connect`, `finish_connect_ok`, `finish_connect_err`,
//! `record_ping`, `disconnect`), and every effect of a report on the runtime
//! state is pinned down by the contracts below.

use vstd::prelude::*;
use crate::clock::{format_rfc3339_millis, rfc3339_of, MAX_TIMESTAMP_MILLIS};
use crate::strutil::dec_rep;
use crate::types::{
    dup_resource_vec, dup_tool_vec, McpServerConfig, McpStatus, Resource, Tool,
    ConnectionState,
};

verus! {

/// URL under which the gateway re-exposes the backend with this id.
pub open spec fn spec_proxy_url(port: u16, id: Seq<char>) -> Seq<char> {
    "http://127.0.0.1:"@ + dec_rep(port as nat) + "/mcp/"@ + id
}

/// Builds `http://127.0.0.1:{port}/mcp/{id}`.
pub fn proxy_url(port: u16, id: &str) -> (r: String)
    ensures
        r@ == spec_proxy_url(port, id@),
{
    let mut s = "http://127.0.0.1:".to_owned();
    let p = crate::strutil::u64_to_string(port as u64);
    s.append(p.as_str());
    s.append("/mcp/");
    s.append(id);
    proof {
        assert(s@ =~= spec_proxy_url(port, id@));
    }
    s
}

/// Uptime, in whole seconds, derived from the connection instant: present
/// only when the backend connected at or before `now_ms`.
pub open spec fn spec_uptime(connected_at: Option<i64>, now_ms: i64) -> Option<u64> {
    match connected_at {
        Option::Some(t) => if now_ms >= t {
            Option::Some((((now_ms - t) / 1000)) as u64)
        } else {
            Option::None
        },
        Option::None => Option::None,
    }
}

/// The status read model of a backend runtime at instant `now_ms`: every
/// field is a function of the runtime, and the proxy URL is present exactly
/// when the backend is connected.
pub open spec fn spec_status(c: McpConnection, proxy_port: u16, now_ms: i64) -> crate::types::McpStatusV {
    crate::types::McpStatusV {
        id: c.config.id@,
        name: c.config.name@,
        state: c.state,
        transport_type: c.config.transport_type,
        connected_at: match c.connected_at {
            Option::Some(t) => Option::Some(rfc3339_of(t as int)),
            Option::None => Option::None,
        },
        last_ping: match c.last_ping {
            Option::Some(t) => Option::Some(rfc3339_of(t as int)),
            Option::None => Option::None,
        },
        error_message: c.error_message.deep_view(),
        tools_count: c.tools@.len() as usize,
        resources_count: c.resources@.len() as usize,
        uptime_seconds: spec_uptime(c.connected_at, now_ms),
        proxy_url: if c.state == ConnectionState::Connected {
            Option::Some(spec_proxy_url(proxy_port, c.config.id@))
        } else {
            Option::None
        },
    }
}

/// The JSON-RPC methods the gateway forwards to a backend. Anything else is
/// answered with a method-not-found error.
pub open spec fn spec_method_supported(m: Seq<char>) -> bool {
    ||| m == "ping"@
    ||| m == "tools/list"@
    ||| m == "tools/call"@
    ||| m == "resources/list"@
    ||| m == "resources/read"@
    ||| m == "resources/templates/list"@
    ||| m == "prompts/list"@
    ||| m == "prompts/get"@
    ||| m == "completion/complete"@
    ||| m == "logging/setLevel"@
}

/// The method actually sent over the wire for a forwarded call: there is no
/// dedicated ping RPC on the client path, so `ping` is probed as a
/// lightweight `tools/list`.
pub fn wire_method<'a>(method: &'a str) -> (r: &'a str)
    ensures
        r@ == (if method@ == "ping"@ {
            "tools/list"@
        } else {
            method@
        }),
{
    if crate::strutil::str_eq(method, "ping") {
        "tools/list"
    } else {
        method
    }
}

/// The result reported for a forwarded call: a `ping` probe discards the
/// listing payload it rode on and reports an empty object; every other
/// method reports the backend's result untouched.
pub fn call_result(method: &str, result: crate::json::JsonValue) -> (r: crate::json::JsonValue)
    ensures
        r@ == (if method@ == "ping"@ {
            crate::json::JsonV::Obj(Seq::empty())
        } else {
            result@
        }),
{
    if crate::strutil::str_eq(method, "ping") {
        let empty = crate::json::JsonValue::Object(Vec::new());
        proof {
            assert(crate::json::pairs_view(empty->Object_0@) =~= Seq::<(
                Seq<char>,
                crate::json::JsonV,
            )>::empty());
        }
        empty
    } else {
        result
    }
}

/// Whether the gateway forwards `method` to backends.
pub fn method_supported(method: &str) -> (r: bool)
    ensures
        r == spec_method_supported(method@),
{
    crate::strutil::str_eq(method, "ping") || crate::strutil::str_eq(method, "tools/list")
        || crate::strutil::str_eq(method, "tools/call")
        || crate::strutil::str_eq(method, "resources/list")
        || crate::strutil::str_eq(method, "resources/read")
        || crate::strutil::str_eq(method, "resources/templates/list")
        || crate::strutil::str_eq(method, "prompts/list")
        || crate::strutil::str_eq(method, "prompts/get")
        || crate::strutil::str_eq(method, "completion/complete")
        || crate::strutil::str_eq(method, "logging/setLevel")
}

/// Runtime of one managed backend.
pub struct McpConnection {
    pub config: McpServerConfig,
    pub state: ConnectionState,
    pub tools: Vec<Tool>,
    pub resources: Vec<Resource>,
    /// Milliseconds since the Unix epoch, set when the backend connected.
    pub connected_at: Option<i64>,
    /// Milliseconds since the Unix epoch, set on the last successful ping.
    pub last_ping: Option<i64>,
    pub error_message: Option<String>,
    pub reconnect_attempts: u32,
}

impl McpConnection {
    /// Every stored instant stays in the range the clock module can render.
    pub open spec fn wf(&self) -> bool {
        &&& (self.connected_at matches Option::Some(t) ==> 0 <= t < MAX_TIMESTAMP_MILLIS)
        &&& (self.last_ping matches Option::Some(t) ==> 0 <= t < MAX_TIMESTAMP_MILLIS)
    }

    /// A fresh, not yet connected runtime for `config`.
    pub fn new(config: McpServerConfig) -> (r: Self)
        ensures
            r.config == config,
            r.state == ConnectionState::Disconnected,
            r.tools@.len() == 0,
            r.resources@.len() == 0,
            r.connected_at is None,
            r.last_ping is None,
            r.error_message is None,
            r.reconnect_attempts == 0,
            r.wf(),
    {
        McpConnection {
            config,
            state: ConnectionState::Disconnected,
            tools: Vec::new(),
            resources: Vec::new(),
            connected_at: None,
            last_ping: None,
            error_message: None,
            reconnect_attempts: 0,
        }
    }

    /// Current lifecycle state.
    pub fn get_state(&self) -> (r: ConnectionState)
        ensures
            r == self.state,
    {
        self.state
    }

    /// How many reconnect attempts the health loop has spent on this backend.
    pub fn get_reconnect_attempts(&self) -> (r: u32)
        ensures
            r == self.reconnect_attempts,
    {
        self.reconnect_attempts
    }

    /// Counts one reconnect attempt.
    pub fn increment_reconnect_attempts(&mut self)
        requires
            old(self).reconnect_attempts < u32::MAX,
        ensures
            *final(self) == (McpConnection {
                reconnect_attempts: (old(self).reconnect_attempts + 1) as u32,
                ..*old(self)
            }),
    {
        self.reconnect_attempts = self.reconnect_attempts + 1;
    }

    /// Records an error message without changing the lifecycle state.
    pub fn set_error(&mut self, msg: String)
        ensures
            *final(self) == (McpConnection { error_message: Option::Some(msg), ..*old(self) }),
    {
        self.error_message = Some(msg);
    }

    /// A connection attempt starts: the backend enters `Connecting`. Nothing
    /// else changes; the caller then opens the transport and reports back.
    pub fn begin_connect(&mut self)
        ensures
            *final(self) == (McpConnection { state: ConnectionState::Connecting, ..*old(self) }),
    {
        self.state = ConnectionState::Connecting;
    }

    /// A connection attempt succeeded at `now_ms` with the discovered
    /// capabilities: the backend enters `Connected`, the connection instant
    /// is stamped, the error and the reconnect counter are cleared, and the
    /// capability caches are replaced. A failed capability discovery is not
    /// fatal: the caller reports empty caches.
    pub fn finish_connect_ok(&mut self, now_ms: i64, tools: Vec<Tool>, resources: Vec<Resource>)
        requires
            0 <= now_ms < MAX_TIMESTAMP_MILLIS,
        ensures
            *final(self) == (McpConnection {
                state: ConnectionState::Connected,
                connected_at: Option::Some(now_ms),
                error_message: Option::None,
                reconnect_attempts: 0,
                tools: tools,
                resources: resources,
                ..*old(self)
            }),
            old(self).wf() ==> final(self).wf(),
    {
        self.state = ConnectionState::Connected;
        self.connected_at = Some(now_ms);
        self.error_message = None;
        self.reconnect_attempts = 0;
        self.tools = tools;
        self.resources = resources;
    }

    /// A connection attempt failed: the backend enters `Error` and keeps the
    /// failure's full message. The reconnect counter is left alone; only a
    /// successful connect resets it.
    pub fn finish_connect_err(&mut self, msg: String)
        ensures
            *final(self) == (McpConnection {
                state: ConnectionState::Error,
                error_message: Option::Some(msg),
                ..*old(self)
            }),
    {
        self.error_message = Some(msg);
        self.state = ConnectionState::Error;
    }

    /// The transport dropped or a liveness probe failed mid-session.
    pub fn mark_error(&mut self, msg: String)
        ensures
            *final(self) == (McpConnection {
                state: ConnectionState::Error,
                error_message: Option::Some(msg),
                ..*old(self)
            }),
    {
        self.error_message = Some(msg);
        self.state = ConnectionState::Error;
    }

    /// The health loop is about to retry this backend.
    pub fn mark_reconnecting(&mut self)
        ensures
            *final(self) == (McpConnection { state: ConnectionState::Reconnecting, ..*old(self) }),
    {
        self.state = ConnectionState::Reconnecting;
    }

    /// A successful liveness probe at `now_ms`.
    pub fn record_ping(&mut self, now_ms: i64)
        requires
            0 <= now_ms < MAX_TIMESTAMP_MILLIS,
        ensures
            *final(self) == (McpConnection { last_ping: Option::Some(now_ms), ..*old(self) }),
            old(self).wf() ==> final(self).wf(),
    {
        self.last_ping = Some(now_ms);
    }

    /// The backend is detached: state returns to `Disconnected`, the
    /// connection instant and the capability caches are dropped. Idempotent;
    /// the caller tears the transport down beforehand.
    pub fn disconnect(&mut self)
        ensures
            *final(self) == (McpConnection {
                state: ConnectionState::Disconnected,
                connected_at: Option::None,
                tools: final(self).tools,
                resources: final(self).resources,
                ..*old(self)
            }),
            final(self).tools@.len() == 0,
            final(self).resources@.len() == 0,
            old(self).wf() ==> final(self).wf(),
    {
        self.tools = Vec::new();
        self.resources = Vec::new();
        self.connected_at = None;
        self.state = ConnectionState::Disconnected;
    }

    /// Whether a forwarded call may be executed: only a connected backend
    /// takes requests.
    pub fn can_execute(&self) -> (r: bool)
        ensures
            r == (self.state == ConnectionState::Connected),
    {
        self.state == ConnectionState::Connected
    }

    /// The cached tools, as discovered on the last successful connect.
    pub fn get_tools(&self) -> (r: Vec<Tool>)
        ensures
            r.deep_view() == self.tools.deep_view(),
    {
        dup_tool_vec(&self.tools)
    }

    /// The cached resources, as discovered on the last successful connect.
    pub fn get_resources(&self) -> (r: Vec<Resource>)
        ensures
            r.deep_view() == self.resources.deep_view(),
    {
        dup_resource_vec(&self.resources)
    }

    /// The read model of this backend at instant `now_ms`: every field is a
    /// function of the runtime, and the proxy URL is present exactly when
    /// the backend is connected.
    pub fn status(&self, proxy_port: u16, now_ms: i64) -> (r: McpStatus)
        requires
            self.wf(),
            0 <= now_ms < MAX_TIMESTAMP_MILLIS,
        ensures
            r@ == spec_status(*self, proxy_port, now_ms),
            r.proxy_url is Some <==> self.state == ConnectionState::Connected,
    {
        let connected_at = match &self.connected_at {
            Option::Some(t) => Option::Some(format_rfc3339_millis(*t)),
            Option::None => Option::None,
        };
        let last_ping = match &self.last_ping {
            Option::Some(t) => Option::Some(format_rfc3339_millis(*t)),
            Option::None => Option::None,
        };
        let uptime_seconds = match &self.connected_at {
            Option::Some(t) => {
                if now_ms >= *t {
                    Option::Some(((now_ms - *t) / 1000) as u64)
                } else {
                    Option::None
                }
            },
            Option::None => Option::None,
        };
        let proxy_url = if self.state == ConnectionState::Connected {
            Option::Some(proxy_url(proxy_port, self.config.id.as_str()))
        } else {
            Option::None
        };
        McpStatus {
            id: self.config.id.clone(),
            name: self.config.name.clone(),
            state: self.state,
            transport_type: self.config.transport_type,
            connected_at,
            last_ping,
            error_message: crate::types::dup_opt_string(&self.error_message),
            tools_count: self.tools.len(),
            resources_count: self.resources.len(),
            uptime_seconds,
            proxy_url,
        }
    }
}

} // verus!
