//! Central registry of managed backends: construction from a configuration,
//! add/update/remove, status aggregation and the health-cycle decisions.
//!
//! The manager owns the per-backend runtimes. Everything here is a decision
//! or a bookkeeping step; opening transports, pinging and sleeping between
//! health cycles happen outside, which report outcomes back through the
//! connection's transition methods.

use vstd::prelude::*;
use crate::clock::MAX_TIMESTAMP_MILLIS;
use crate::connection::{spec_proxy_url, McpConnection};
use crate::strutil::lex_le;
use crate::types::{
    AppConfig, ConnectionState, McpServerConfig, McpServerConfigV, McpStatus, McpDetail,
};

verus! {

/// Whether some registered backend carries this id.
pub open spec fn spec_has_conn(conns: Seq<McpConnection>, id: Seq<char>) -> bool {
    exists|k: int| 0 <= k < conns.len() && #[trigger] conns[k].config.id@ == id
}

/// Index of the first registered backend with this id, or -1.
pub open spec fn conn_first_idx(conns: Seq<McpConnection>, id: Seq<char>) -> int
    decreases conns.len(),
{
    if conns.len() == 0 {
        -1
    } else if conns[0].config.id@ == id {
        0
    } else {
        let r = conn_first_idx(conns.drop_first(), id);
        if r == -1 {
            -1
        } else {
            r + 1
        }
    }
}

/// Index of the first configuration entry with this id, or -1.
pub open spec fn mcp_first_idx(mcps: Seq<McpServerConfigV>, id: Seq<char>) -> int
    decreases mcps.len(),
{
    if mcps.len() == 0 {
        -1
    } else if mcps[0].id == id {
        0
    } else {
        let r = mcp_first_idx(mcps.drop_first(), id);
        if r == -1 {
            -1
        } else {
            r + 1
        }
    }
}

proof fn lemma_conn_first_idx_at(conns: Seq<McpConnection>, id: Seq<char>, j: int)
    requires
        0 <= j < conns.len(),
        forall|k: int| 0 <= k < j ==> #[trigger] conns[k].config.id@ != id,
        conns[j].config.id@ == id,
    ensures
        conn_first_idx(conns, id) == j,
    decreases j,
{
    if j > 0 {
        lemma_conn_first_idx_at(conns.drop_first(), id, j - 1);
    }
}

proof fn lemma_conn_first_idx_none(conns: Seq<McpConnection>, id: Seq<char>)
    requires
        forall|k: int| 0 <= k < conns.len() ==> #[trigger] conns[k].config.id@ != id,
    ensures
        conn_first_idx(conns, id) == -1,
        !spec_has_conn(conns, id),
    decreases conns.len(),
{
    if conns.len() > 0 {
        lemma_conn_first_idx_none(conns.drop_first(), id);
    }
}

proof fn lemma_mcp_first_idx_at(mcps: Seq<McpServerConfigV>, id: Seq<char>, j: int)
    requires
        0 <= j < mcps.len(),
        forall|k: int| 0 <= k < j ==> (#[trigger] mcps[k]).id != id,
        mcps[j].id == id,
    ensures
        mcp_first_idx(mcps, id) == j,
    decreases j,
{
    if j > 0 {
        lemma_mcp_first_idx_at(mcps.drop_first(), id, j - 1);
    }
}

proof fn lemma_mcp_first_idx_none(mcps: Seq<McpServerConfigV>, id: Seq<char>)
    requires
        forall|k: int| 0 <= k < mcps.len() ==> (#[trigger] mcps[k]).id != id,
    ensures
        mcp_first_idx(mcps, id) == -1,
    decreases mcps.len(),
{
    if mcps.len() > 0 {
        lemma_mcp_first_idx_none(mcps.drop_first(), id);
    }
}

/// The message given when no backend carries the asked-for id.
pub open spec fn msg_not_found(id: Seq<char>) -> Seq<char> {
    "MCP '"@ + id + "' not found"@
}

/// The message given when an added backend's id is already taken.
pub open spec fn msg_duplicate_id(id: Seq<char>) -> Seq<char> {
    "MCP with ID '"@ + id + "' already exists"@
}

fn build_msg_not_found(id: &str) -> (r: String)
    ensures
        r@ == msg_not_found(id@),
{
    let mut s = "MCP '".to_owned();
    s.append(id);
    s.append("' not found");
    proof {
        assert(s@ =~= msg_not_found(id@));
    }
    s
}

/// Central manager of all backend runtimes and of the live configuration.
pub struct McpManager {
    pub connections: Vec<McpConnection>,
    pub config: AppConfig,
}

impl McpManager {
    /// Every stored instant is renderable.
    pub open spec fn wf(&self) -> bool {
        forall|k: int| 0 <= k < self.connections@.len() ==> (
        #[trigger] self.connections@[k]).wf()
    }

    /// No two registered backends share an id.
    pub open spec fn unique_ids(&self) -> bool {
        forall|k1: int, k2: int|
            0 <= k1 < k2 < self.connections@.len() ==> (#[trigger] self.connections@[k1]).config.id@
                != (#[trigger] self.connections@[k2]).config.id@
    }

    /// A manager with no registered backend yet.
    pub fn new(config: AppConfig) -> (r: Self)
        ensures
            r.config == config,
            r.connections@.len() == 0,
            r.wf(),
            r.unique_ids(),
    {
        McpManager { connections: Vec::new(), config }
    }

    /// Index of the registered backend with this id, if any. The index is of
    /// the first match, and a `None` means no backend carries the id.
    pub fn find_conn(&self, id: &str) -> (r: Option<usize>)
        ensures
            match r {
                Option::Some(i) => i < self.connections@.len()
                    && self.connections@[i as int].config.id@ == id@
                    && conn_first_idx(self.connections@, id@) == i
                    && spec_has_conn(self.connections@, id@),
                Option::None => !spec_has_conn(self.connections@, id@)
                    && conn_first_idx(self.connections@, id@) == -1,
            },
    {
        let n = self.connections.len();
        let mut i: usize = 0;
        while i < n
            invariant
                n == self.connections@.len(),
                i <= n,
                forall|k: int| 0 <= k < i ==> (
                #[trigger] self.connections@[k]).config.id@ != id@,
            decreases n - i,
        {
            if crate::strutil::str_eq(self.connections[i].config.id.as_str(), id) {
                proof {
                    lemma_conn_first_idx_at(self.connections@, id@, i as int);
                }
                return Some(i);
            }
            i = i + 1;
        }
        proof {
            lemma_conn_first_idx_none(self.connections@, id@);
        }
        None
    }

    /// Index of the first configuration entry with this id, if any.
    pub fn find_entry(&self, id: &str) -> (r: Option<usize>)
        ensures
            match r {
                Option::Some(i) => i < self.config.mcps@.len()
                    && self.config@.mcps[i as int].id == id@
                    && mcp_first_idx(self.config@.mcps, id@) == i,
                Option::None => mcp_first_idx(self.config@.mcps, id@) == -1,
            },
    {
        let n = self.config.mcps.len();
        let mut i: usize = 0;
        while i < n
            invariant
                n == self.config.mcps@.len(),
                i <= n,
                forall|k: int| 0 <= k < i ==> (#[trigger] self.config@.mcps[k]).id != id@,
            decreases n - i,
        {
            proof {
                assert(self.config@.mcps[i as int] == self.config.mcps@[i as int]@);
            }
            if crate::strutil::str_eq(self.config.mcps[i].id.as_str(), id) {
                proof {
                    lemma_mcp_first_idx_at(self.config@.mcps, id@, i as int);
                }
                return Some(i);
            }
            i = i + 1;
        }
        proof {
            lemma_mcp_first_idx_none(self.config@.mcps, id@);
        }
        None
    }

    /// Registers a runtime for every enabled backend of the configuration
    /// that has none yet. Never registers two backends with one id. When the
    /// registry starts empty, the entries are all enabled and their ids are
    /// pairwise distinct, exactly one runtime per entry comes out.
    pub fn initialize(&mut self)
        requires
            old(self).wf(),
            old(self).unique_ids(),
        ensures
            final(self).config == old(self).config,
            final(self).wf(),
            final(self).unique_ids(),
            forall|j: int|
                0 <= j < final(self).config@.mcps.len() && (
                #[trigger] final(self).config@.mcps[j]).enabled ==> spec_has_conn(
                    final(self).connections@,
                    final(self).config@.mcps[j].id,
                ),
            forall|id: Seq<char>|
                spec_has_conn(old(self).connections@, id) ==> spec_has_conn(
                    final(self).connections@,
                    id,
                ),
            (old(self).connections@.len() == 0 && (forall|j: int|
                0 <= j < old(self).config@.mcps.len() ==> (
                #[trigger] old(self).config@.mcps[j]).enabled) && (forall|j1: int, j2: int|
                0 <= j1 < j2 < old(self).config@.mcps.len() ==> (
                #[trigger] old(self).config@.mcps[j1]).id != (
                #[trigger] old(self).config@.mcps[j2]).id)) ==> final(self).connections@.len()
                == old(self).config@.mcps.len(),
    {
        let ghost uniq_case = old(self).connections@.len() == 0 && (forall|j: int|
            0 <= j < old(self).config@.mcps.len() ==> (
            #[trigger] old(self).config@.mcps[j]).enabled) && (forall|j1: int, j2: int|
            0 <= j1 < j2 < old(self).config@.mcps.len() ==> (
            #[trigger] old(self).config@.mcps[j1]).id != (#[trigger] old(self).config@.mcps[j2]).id);
        let n = self.config.mcps.len();
        let mut i: usize = 0;
        while i < n
            invariant
                n == self.config.mcps@.len(),
                i <= n,
                self.config == old(self).config,
                self.wf(),
                self.unique_ids(),
                forall|j: int|
                    0 <= j < i && (#[trigger] self.config@.mcps[j]).enabled ==> spec_has_conn(
                        self.connections@,
                        self.config@.mcps[j].id,
                    ),
                forall|id: Seq<char>|
                    spec_has_conn(old(self).connections@, id) ==> spec_has_conn(
                        self.connections@,
                        id,
                    ),
                uniq_case == (old(self).connections@.len() == 0 && (forall|j: int|
                    0 <= j < old(self).config@.mcps.len() ==> (
                    #[trigger] old(self).config@.mcps[j]).enabled) && (forall|j1: int, j2: int|
                    0 <= j1 < j2 < old(self).config@.mcps.len() ==> (
                    #[trigger] old(self).config@.mcps[j1]).id != (
                    #[trigger] old(self).config@.mcps[j2]).id)),
                uniq_case ==> self.connections@.len() == i,
                uniq_case ==> forall|k: int|
                    0 <= k < i ==> (#[trigger] self.connections@[k]).config.id@
                        == self.config@.mcps[k].id,
            decreases n - i,
        {
            let ghost pre = self.connections@;
            let entry = &self.config.mcps[i];
            proof {
                assert(self.config@.mcps[i as int] == self.config.mcps@[i as int]@);
            }
            if entry.enabled {
                let cfg = entry.duplicate();
                proof {
                    assert(cfg.id@ == self.config@.mcps[i as int].id);
                }
                if self.find_conn(cfg.id.as_str()).is_none() {
                    let conn = McpConnection::new(cfg);
                    self.connections.push(conn);
                    proof {
                        assert(self.connections@.last().config.id@
                            == self.config@.mcps[i as int].id);
                        assert(spec_has_conn(self.connections@, self.config@.mcps[i as int].id));
                    }
                }
            }
            proof {
                assert forall|id2: Seq<char>| spec_has_conn(pre, id2) implies spec_has_conn(
                    self.connections@,
                    id2,
                ) by {
                    let k = choose|k: int| 0 <= k < pre.len() && #[trigger] pre[k].config.id@
                        == id2;
                    assert(self.connections@[k].config.id@ == id2);
                }
            }
            i = i + 1;
        }
    }

    /// Adds a new backend: refused when the id is taken; otherwise a fresh,
    /// disconnected runtime is registered and the entry is appended to the
    /// configuration. The caller attempts the first connect afterwards.
    pub fn add_mcp(&mut self, config: McpServerConfig) -> (r: Result<String, String>)
        requires
            old(self).wf(),
        ensures
            final(self).wf(),
            match r {
                Result::Ok(id) => id@ == config.id@ && !spec_has_conn(
                    old(self).connections@,
                    config.id@,
                ) && final(self).connections@.len() == old(self).connections@.len() + 1
                    && final(self).connections@ == old(self).connections@.push(
                    final(self).connections@.last(),
                ) && final(self).connections@.last().config@ == config@
                    && final(self).connections@.last().state == ConnectionState::Disconnected
                    && final(self).connections@.last().reconnect_attempts == 0
                    && final(self).config@.mcps == old(self).config@.mcps.push(config@)
                    && final(self).config.proxy_port == old(self).config.proxy_port
                    && final(self).config.health_check_interval_secs
                    == old(self).config.health_check_interval_secs
                    && final(self).config.auto_reconnect == old(self).config.auto_reconnect
                    && final(self).config.max_reconnect_attempts
                    == old(self).config.max_reconnect_attempts
                    && final(self).config.connection_timeout_secs
                    == old(self).config.connection_timeout_secs,
                Result::Err(m) => spec_has_conn(old(self).connections@, config.id@) && *final(self)
                    == *old(self) && m@ == msg_duplicate_id(config.id@),
            },
    {
        if self.find_conn(config.id.as_str()).is_some() {
            let mut s = "MCP with ID '".to_owned();
            s.append(config.id.as_str());
            s.append("' already exists");
            proof {
                assert(s@ =~= msg_duplicate_id(config.id@));
            }
            return Err(s);
        }
        let id = config.id.clone();
        let conn_cfg = config.duplicate();
        let conn = McpConnection::new(conn_cfg);
        self.connections.push(conn);
        self.config.mcps.push(config);
        proof {
            assert(final(self).connections@ == old(self).connections@.push(
                final(self).connections@.last(),
            ));
            assert(final(self).config@.mcps =~= old(self).config@.mcps.push(
                final(self).connections@.last().config@,
            ));
        }
        Ok(id)
    }

    /// Replaces a backend wholesale: the old runtime (if any) leaves the
    /// registry, a fresh disconnected runtime for the new configuration
    /// takes its place, and the configuration entry is updated, or appended
    /// when the id was absent. The caller closes the old transport before
    /// calling and attempts the new connect afterwards.
    pub fn update_mcp(&mut self, config: McpServerConfig) -> (r: Result<(), String>)
        requires
            old(self).wf(),
        ensures
            r is Ok,
            final(self).wf(),
            final(self).connections@ == (if conn_first_idx(old(self).connections@, config.id@)
                >= 0 {
                old(self).connections@.remove(conn_first_idx(old(self).connections@, config.id@))
            } else {
                old(self).connections@
            }).push(final(self).connections@.last()),
            final(self).connections@.last().config@ == config@,
            final(self).connections@.last().state == ConnectionState::Disconnected,
            final(self).connections@.last().reconnect_attempts == 0,
            final(self).config@.mcps == (if mcp_first_idx(old(self).config@.mcps, config.id@) >= 0 {
                old(self).config@.mcps.update(
                    mcp_first_idx(old(self).config@.mcps, config.id@),
                    config@,
                )
            } else {
                old(self).config@.mcps.push(config@)
            }),
            final(self).config.proxy_port == old(self).config.proxy_port,
            final(self).config.health_check_interval_secs
                == old(self).config.health_check_interval_secs,
            final(self).config.auto_reconnect == old(self).config.auto_reconnect,
            final(self).config.max_reconnect_attempts == old(self).config.max_reconnect_attempts,
            final(self).config.connection_timeout_secs == old(self).config.connection_timeout_secs,
    {
        if let Some(i) = self.find_conn(config.id.as_str()) {
            let mut removed = self.connections.remove(i);
            removed.disconnect();
        }
        let conn_cfg = config.duplicate();
        let conn = McpConnection::new(conn_cfg);
        self.connections.push(conn);
        match self.find_entry(config.id.as_str()) {
            Some(p) => {
                let e = &mut self.config.mcps[p];
                *e = config;
                proof {
                    assert(final(self).config@.mcps =~= old(self).config@.mcps.update(
                        mcp_first_idx(old(self).config@.mcps, final(self).connections@.last().config.id@),
                        final(self).connections@.last().config@,
                    ));
                }
            },
            None => {
                self.config.mcps.push(config);
                proof {
                    assert(final(self).config@.mcps =~= old(self).config@.mcps.push(
                        final(self).connections@.last().config@,
                    ));
                }
            },
        }
        Ok(())
    }

    /// Removes a backend: its runtime leaves the registry and every
    /// configuration entry with the id is dropped. The caller closes the
    /// transport beforehand. Removing an unknown id is a no-op.
    pub fn remove_mcp(&mut self, id: &str) -> (r: Result<(), String>)
        requires
            old(self).wf(),
        ensures
            r is Ok,
            final(self).wf(),
            final(self).connections@ == (if conn_first_idx(old(self).connections@, id@) >= 0 {
                old(self).connections@.remove(conn_first_idx(old(self).connections@, id@))
            } else {
                old(self).connections@
            }),
            final(self).config@.mcps == old(self).config@.mcps.filter(
                |m: McpServerConfigV| m.id != id@,
            ),
            final(self).config.proxy_port == old(self).config.proxy_port,
            final(self).config.health_check_interval_secs
                == old(self).config.health_check_interval_secs,
            final(self).config.auto_reconnect == old(self).config.auto_reconnect,
            final(self).config.max_reconnect_attempts == old(self).config.max_reconnect_attempts,
            final(self).config.connection_timeout_secs == old(self).config.connection_timeout_secs,
    {
        if let Some(i) = self.find_conn(id) {
            let mut removed = self.connections.remove(i);
            removed.disconnect();
        }
        let n = self.config.mcps.len();
        let mut kept: Vec<McpServerConfig> = Vec::new();
        let mut i: usize = 0;
        while i < n
            invariant
                n == self.config.mcps@.len(),
                i <= n,
                kept.deep_view() == self.config@.mcps.take(i as int).filter(
                    |m: McpServerConfigV| m.id != id@,
                ),
            decreases n - i,
        {
            let ghost prefix = self.config@.mcps.take(i as int);
            let ghost prefix1 = self.config@.mcps.take(i as int + 1);
            proof {
                assert(self.config@.mcps[i as int] == self.config.mcps@[i as int]@);
                assert(prefix1.drop_last() =~= prefix);
                assert(prefix1.last() == self.config@.mcps[i as int]);
                reveal_with_fuel(Seq::filter, 2);
            }
            let entry = &self.config.mcps[i];
            if !crate::strutil::str_eq(entry.id.as_str(), id) {
                kept.push(entry.duplicate());
                proof {
                    assert(kept.deep_view() =~= prefix1.filter(
                        |m: McpServerConfigV| m.id != id@,
                    ));
                }
            } else {
                proof {
                    assert(kept.deep_view() =~= prefix1.filter(
                        |m: McpServerConfigV| m.id != id@,
                    ));
                }
            }
            i = i + 1;
        }
        proof {
            assert(self.config@.mcps.take(n as int) =~= self.config@.mcps);
        }
        self.config.mcps = kept;
        Ok(())
    }

    /// A shared borrow of the registered backend with this id.
    pub fn get_connection(&self, id: &str) -> (r: Option<&McpConnection>)
        ensures
            match r {
                Option::Some(c) => spec_has_conn(self.connections@, id@) && *c
                    == self.connections@[conn_first_idx(self.connections@, id@)],
                Option::None => !spec_has_conn(self.connections@, id@),
            },
    {
        match self.find_conn(id) {
            Some(i) => Some(&self.connections[i]),
            None => None,
        }
    }

    /// The live configuration.
    pub fn get_config(&self) -> (r: &AppConfig)
        ensures
            *r == self.config,
    {
        &self.config
    }

    /// Replaces the global knobs. The backend list is managed only through
    /// add, update and remove, and is left untouched.
    pub fn update_config(&mut self, config: AppConfig)
        ensures
            final(self).connections == old(self).connections,
            final(self).config.mcps == old(self).config.mcps,
            final(self).config.proxy_port == config.proxy_port,
            final(self).config.health_check_interval_secs == config.health_check_interval_secs,
            final(self).config.auto_reconnect == config.auto_reconnect,
            final(self).config.max_reconnect_attempts == config.max_reconnect_attempts,
            final(self).config.connection_timeout_secs == config.connection_timeout_secs,
    {
        self.config.proxy_port = config.proxy_port;
        self.config.health_check_interval_secs = config.health_check_interval_secs;
        self.config.auto_reconnect = config.auto_reconnect;
        self.config.max_reconnect_attempts = config.max_reconnect_attempts;
        self.config.connection_timeout_secs = config.connection_timeout_secs;
    }

    /// The proxy URL shown to the GUI for this backend: the address the
    /// gateway serves it under.
    pub fn get_proxy_url(&self, id: &str) -> (r: String)
        ensures
            r@ == spec_proxy_url(self.config.proxy_port, id@),
    {
        crate::connection::proxy_url(self.config.proxy_port, id)
    }

    /// The disabled tools and disabled resources of this backend's
    /// configuration entry; empty lists when the id is unknown.
    pub fn get_disabled_items(&self, id: &str) -> (r: (Vec<String>, Vec<String>))
        ensures
            (if mcp_first_idx(self.config@.mcps, id@) >= 0 {
                r.0.deep_view() == self.config@.mcps[mcp_first_idx(self.config@.mcps, id@)]
                    .disabled_tools && r.1.deep_view() == self.config@.mcps[mcp_first_idx(
                    self.config@.mcps,
                    id@,
                )].disabled_resources
            } else {
                r.0.deep_view().len() == 0 && r.1.deep_view().len() == 0
            }),
    {
        match self.find_entry(id) {
            Some(p) => {
                let e = &self.config.mcps[p];
                proof {
                    assert(self.config@.mcps[p as int] == self.config.mcps@[p as int]@);
                }
                (
                    crate::types::dup_string_vec(&e.disabled_tools),
                    crate::types::dup_string_vec(&e.disabled_resources),
                )
            },
            None => (Vec::new(), Vec::new()),
        }
    }

    /// Replaces the disabled-item policy on this backend's configuration
    /// entry. The runtime and its transport are left untouched; the policy
    /// takes effect on the next capability listing.
    pub fn set_disabled_items(
        &mut self,
        id: &str,
        disabled_tools: Vec<String>,
        disabled_resources: Vec<String>,
    ) -> (r: Result<(), String>)
        ensures
            final(self).connections == old(self).connections,
            final(self).config.proxy_port == old(self).config.proxy_port,
            final(self).config.health_check_interval_secs
                == old(self).config.health_check_interval_secs,
            final(self).config.auto_reconnect == old(self).config.auto_reconnect,
            final(self).config.max_reconnect_attempts == old(self).config.max_reconnect_attempts,
            final(self).config.connection_timeout_secs == old(self).config.connection_timeout_secs,
            match r {
                Result::Ok(()) => mcp_first_idx(old(self).config@.mcps, id@) >= 0
                    && final(self).config@.mcps == old(self).config@.mcps.update(
                    mcp_first_idx(old(self).config@.mcps, id@),
                    McpServerConfigV {
                        disabled_tools: disabled_tools.deep_view(),
                        disabled_resources: disabled_resources.deep_view(),
                        ..old(self).config@.mcps[mcp_first_idx(old(self).config@.mcps, id@)]
                    },
                ),
                Result::Err(m) => mcp_first_idx(old(self).config@.mcps, id@) == -1
                    && final(self).config.mcps == old(self).config.mcps
                    && m@ == msg_not_found(id@),
            },
    {
        match self.find_entry(id) {
            Some(p) => {
                let e = &mut self.config.mcps[p];
                e.disabled_tools = disabled_tools;
                e.disabled_resources = disabled_resources;
                proof {
                    assert(final(self).config@.mcps =~= old(self).config@.mcps.update(
                        mcp_first_idx(old(self).config@.mcps, id@),
                        McpServerConfigV {
                            disabled_tools: disabled_tools.deep_view(),
                            disabled_resources: disabled_resources.deep_view(),
                            ..old(self).config@.mcps[mcp_first_idx(old(self).config@.mcps, id@)]
                        },
                    ));
                }
                Ok(())
            },
            None => Err(build_msg_not_found(id)),
        }
    }
}


/// What one health cycle does with one backend.
#[derive(Clone, Copy, Debug, PartialEq, Eq, Structural)]
pub enum HealthAction {
    /// The backend is connected: probe its liveness.
    Ping,
    /// The backend is down and a reconnect attempt is granted.
    Reconnect,
    /// Leave the backend alone this cycle.
    Skip,
}

/// Whether the health cycle grants a reconnect attempt: the backend is down,
/// automatic reconnection is on, the backend is enabled and the attempt cap
/// is not yet reached.
pub open spec fn spec_reconnect_granted(c: McpConnection, auto_reconnect: bool, max: u32) -> bool {
    &&& (c.state == ConnectionState::Error || c.state == ConnectionState::Disconnected)
    &&& auto_reconnect
    &&& c.config.enabled
    &&& c.reconnect_attempts < max
}

/// The decision of one health cycle for one backend: connected backends are
/// pinged; down backends get a reconnect attempt under the granting rule;
/// everything else is skipped.
pub open spec fn spec_health_action(c: McpConnection, auto_reconnect: bool, max: u32) -> HealthAction {
    if c.state == ConnectionState::Connected {
        HealthAction::Ping
    } else if spec_reconnect_granted(c, auto_reconnect, max) {
        HealthAction::Reconnect
    } else {
        HealthAction::Skip
    }
}

/// One health cycle seen by a backend that is permanently down: a granted
/// attempt bumps the counter and the connect attempt fails back to `Error`;
/// an ungranted cycle changes nothing.
pub open spec fn spec_down_tick(c: McpConnection, auto_reconnect: bool, max: u32) -> McpConnection {
    if spec_reconnect_granted(c, auto_reconnect, max) {
        McpConnection {
            reconnect_attempts: (c.reconnect_attempts + 1) as u32,
            state: ConnectionState::Error,
            ..c
        }
    } else {
        c
    }
}

/// How many reconnect attempts a permanently down backend is granted over
/// `n` health cycles.
pub open spec fn spec_granted_attempts(
    c: McpConnection,
    auto_reconnect: bool,
    max: u32,
    n: nat,
) -> nat
    decreases n,
{
    if n == 0 {
        0
    } else {
        (if spec_reconnect_granted(c, auto_reconnect, max) {
            1nat
        } else {
            0nat
        }) + spec_granted_attempts(spec_down_tick(c, auto_reconnect, max), auto_reconnect, max, (n
            - 1) as nat)
    }
}

/// Reconnect attempts are bounded: a backend that never connects is granted
/// at most `max - c.reconnect_attempts` connect attempts by the health loop,
/// over any number of cycles. In particular a fresh backend that is
/// permanently down sees at most `max_reconnect_attempts` attempts.
pub proof fn lemma_reconnect_bound(c: McpConnection, auto_reconnect: bool, max: u32, n: nat)
    requires
        c.reconnect_attempts <= max,
    ensures
        spec_granted_attempts(c, auto_reconnect, max, n) <= max - c.reconnect_attempts,
    decreases n,
{
    if n > 0 {
        lemma_reconnect_bound(spec_down_tick(c, auto_reconnect, max), auto_reconnect, max, (n - 1) as nat);
    }
}

impl McpManager {
    /// The decision of the current health cycle for backend `i`.
    pub fn health_action(&self, i: usize) -> (r: HealthAction)
        requires
            i < self.connections@.len(),
        ensures
            r == spec_health_action(
                self.connections@[i as int],
                self.config.auto_reconnect,
                self.config.max_reconnect_attempts,
            ),
    {
        let c = &self.connections[i];
        match c.get_state() {
            ConnectionState::Connected => HealthAction::Ping,
            ConnectionState::Error | ConnectionState::Disconnected => {
                if self.config.auto_reconnect && c.config.enabled && c.get_reconnect_attempts()
                    < self.config.max_reconnect_attempts {
                    HealthAction::Reconnect
                } else {
                    HealthAction::Skip
                }
            },
            _ => HealthAction::Skip,
        }
    }

    /// Asks for one reconnect attempt on backend `i`: when the granting rule
    /// holds, the attempt counter is bumped (never past the cap) and `true`
    /// comes back; otherwise nothing changes. The caller performs the actual
    /// connect attempt only on `true`.
    pub fn grant_reconnect(&mut self, i: usize) -> (r: bool)
        requires
            i < old(self).connections@.len(),
            old(self).wf(),
        ensures
            final(self).wf(),
            final(self).config == old(self).config,
            r == spec_reconnect_granted(
                old(self).connections@[i as int],
                old(self).config.auto_reconnect,
                old(self).config.max_reconnect_attempts,
            ),
            r ==> final(self).connections@ == old(self).connections@.update(
                i as int,
                (McpConnection {
                    reconnect_attempts: (old(self).connections@[i as int].reconnect_attempts
                        + 1) as u32,
                    ..old(self).connections@[i as int]
                }),
            ),
            r ==> final(self).connections@[i as int].reconnect_attempts
                <= old(self).config.max_reconnect_attempts,
            !r ==> *final(self) == *old(self),
    {
        let granted = {
            let c = &self.connections[i];
            let down = match c.get_state() {
                ConnectionState::Error | ConnectionState::Disconnected => true,
                _ => false,
            };
            down && self.config.auto_reconnect && c.config.enabled
                && c.get_reconnect_attempts() < self.config.max_reconnect_attempts
        };
        if granted {
            let c = &mut self.connections[i];
            c.increment_reconnect_attempts();
        }
        granted
    }

    /// Starts a connection attempt on the backend with this id: the backend
    /// enters `Connecting`, and the caller then opens the transport and
    /// reports the outcome through `finish_connect_ok` or
    /// `finish_connect_err`. Unknown ids are reported.
    pub fn connect_mcp(&mut self, id: &str) -> (r: Result<(), String>)
        requires
            old(self).wf(),
        ensures
            final(self).wf(),
            final(self).config == old(self).config,
            match r {
                Result::Ok(()) => {
                    let p = conn_first_idx(old(self).connections@, id@);
                    &&& spec_has_conn(old(self).connections@, id@)
                    &&& final(self).connections@ == old(self).connections@.update(
                        p,
                        (McpConnection {
                            state: ConnectionState::Connecting,
                            ..old(self).connections@[p]
                        }),
                    )
                },
                Result::Err(m) => !spec_has_conn(old(self).connections@, id@) && *final(self)
                    == *old(self) && m@ == msg_not_found(id@),
            },
    {
        match self.find_conn(id) {
            Some(i) => {
                let c = &mut self.connections[i];
                c.begin_connect();
                Ok(())
            },
            None => Err(build_msg_not_found(id)),
        }
    }

    /// Detaches the backend with this id; unknown ids are reported.
    pub fn disconnect_mcp(&mut self, id: &str) -> (r: Result<(), String>)
        requires
            old(self).wf(),
        ensures
            final(self).wf(),
            final(self).config == old(self).config,
            match r {
                Result::Ok(()) => {
                    let p = conn_first_idx(old(self).connections@, id@);
                    &&& spec_has_conn(old(self).connections@, id@)
                    &&& final(self).connections@ == old(self).connections@.update(
                        p,
                        final(self).connections@[p],
                    )
                    &&& final(self).connections@[p] == (McpConnection {
                        state: ConnectionState::Disconnected,
                        connected_at: Option::None,
                        tools: final(self).connections@[p].tools,
                        resources: final(self).connections@[p].resources,
                        ..old(self).connections@[p]
                    })
                    &&& final(self).connections@[p].tools@.len() == 0
                    &&& final(self).connections@[p].resources@.len() == 0
                },
                Result::Err(m) => !spec_has_conn(old(self).connections@, id@) && *final(self)
                    == *old(self) && m@ == msg_not_found(id@),
            },
    {
        match self.find_conn(id) {
            Some(i) => {
                let c = &mut self.connections[i];
                c.disconnect();
                Ok(())
            },
            None => Err(build_msg_not_found(id)),
        }
    }

    /// Detaches every backend, in registry order, for process shutdown:
    /// each backend simply returns to `Disconnected`.
    pub fn shutdown(&mut self)
        requires
            old(self).wf(),
        ensures
            final(self).wf(),
            final(self).config == old(self).config,
            final(self).connections@.len() == old(self).connections@.len(),
            forall|k: int|
                0 <= k < final(self).connections@.len() ==> (
                #[trigger] final(self).connections@[k]).state == ConnectionState::Disconnected,
            forall|k: int|
                0 <= k < final(self).connections@.len() ==> (
                #[trigger] final(self).connections@[k]).config
                    == old(self).connections@[k].config,
    {
        let n = self.connections.len();
        let mut i: usize = 0;
        while i < n
            invariant
                n == self.connections@.len(),
                i <= n,
                self.wf(),
                self.config == old(self).config,
                forall|k: int|
                    0 <= k < i ==> (#[trigger] self.connections@[k]).state
                        == ConnectionState::Disconnected,
                forall|k: int|
                    0 <= k < n ==> (#[trigger] self.connections@[k]).config
                        == old(self).connections@[k].config,
            decreases n - i,
        {
            let c = &mut self.connections[i];
            c.disconnect();
            i = i + 1;
        }
    }
}


/// The status views of all registered backends at instant `now_ms`, in
/// registry order.
pub open spec fn spec_statuses(conns: Seq<McpConnection>, port: u16, now_ms: i64) -> Seq<
    crate::types::McpStatusV,
> {
    Seq::new(conns.len(), |i: int| crate::connection::spec_status(conns[i], port, now_ms))
}

impl McpManager {
    /// Status snapshots of every backend at instant `now_ms`, sorted by name
    /// ascending for a stable GUI ordering: the result is a permutation of
    /// the per-backend statuses.
    pub fn list_statuses(&self, now_ms: i64) -> (r: Vec<McpStatus>)
        requires
            self.wf(),
            0 <= now_ms < MAX_TIMESTAMP_MILLIS,
        ensures
            r@.len() == self.connections@.len(),
            r.deep_view().to_multiset() == spec_statuses(
                self.connections@,
                self.config.proxy_port,
                now_ms,
            ).to_multiset(),
            forall|i: int, j: int|
                0 <= i < j < r@.len() ==> lex_le(
                    (#[trigger] r.deep_view()[i]).name,
                    (#[trigger] r.deep_view()[j]).name,
                ),
    {
        broadcast use vstd::seq_lib::group_to_multiset_ensures;
        broadcast use vstd::multiset::group_multiset_axioms;

        let ghost total = spec_statuses(self.connections@, self.config.proxy_port, now_ms);
        let n = self.connections.len();
        let mut pending: Vec<McpStatus> = Vec::new();
        let mut i: usize = 0;
        while i < n
            invariant
                self.wf(),
                0 <= now_ms < MAX_TIMESTAMP_MILLIS,
                n == self.connections@.len(),
                i <= n,
                total == spec_statuses(self.connections@, self.config.proxy_port, now_ms),
                pending@.len() == i,
                forall|k: int| 0 <= k < i ==> #[trigger] pending.deep_view()[k] == total[k],
            decreases n - i,
        {
            let ghost pre = pending.deep_view();
            let s = self.connections[i].status(self.config.proxy_port, now_ms);
            pending.push(s);
            proof {
                assert(pending@[i as int] == s);
                assert forall|k: int| 0 <= k < i + 1 implies #[trigger] pending.deep_view()[k]
                    == total[k] by {
                    if k < i {
                        assert(pending.deep_view()[k] == pending@[k].deep_view());
                        assert(pre[k] == pending@[k].deep_view());
                    } else {
                        assert(pending.deep_view()[k] == s@);
                    }
                }
            }
            i = i + 1;
        }
        proof {
            assert(pending.deep_view() =~= total);
        }
        let mut out: Vec<McpStatus> = Vec::new();
        loop
            invariant
                out.deep_view().to_multiset().add(pending.deep_view().to_multiset())
                    == total.to_multiset(),
                out@.len() + pending@.len() == total.len(),
                forall|p: int, q: int|
                    0 <= p < q < out@.len() ==> lex_le(
                        (#[trigger] out.deep_view()[p]).name,
                        (#[trigger] out.deep_view()[q]).name,
                    ),
                forall|p: int, q: int|
                    0 <= p < out@.len() && 0 <= q < pending@.len() ==> lex_le(
                        (#[trigger] out.deep_view()[p]).name,
                        (#[trigger] pending.deep_view()[q]).name,
                    ),
            ensures
                pending@.len() == 0,
                out.deep_view().to_multiset().add(pending.deep_view().to_multiset())
                    == total.to_multiset(),
                out@.len() == total.len(),
                forall|p: int, q: int|
                    0 <= p < q < out@.len() ==> lex_le(
                        (#[trigger] out.deep_view()[p]).name,
                        (#[trigger] out.deep_view()[q]).name,
                    ),
            decreases pending@.len(),
        {
            if pending.len() == 0 {
                break;
            }
            let m = pending.len();
            let mut mi: usize = 0;
            let mut j: usize = 1;
            proof {
                crate::strutil::lemma_lex_le_refl(pending.deep_view()[0].name);
            }
            while j < m
                invariant
                    m == pending@.len(),
                    0 < m,
                    mi < j <= m,
                    forall|k: int|
                        0 <= k < j ==> lex_le(
                            pending.deep_view()[mi as int].name,
                            (#[trigger] pending.deep_view()[k]).name,
                        ),
                decreases m - j,
            {
                if crate::strutil::str_lex_le(
                    pending[j].name.as_str(),
                    pending[mi].name.as_str(),
                ) {
                    proof {
                        let dv = pending.deep_view();
                        assert(pending@[j as int]@ == dv[j as int]);
                        assert forall|k: int| 0 <= k < j + 1 implies lex_le(
                            dv[j as int].name,
                            (#[trigger] dv[k]).name,
                        ) by {
                            if k < j {
                                crate::strutil::lemma_lex_le_trans(
                                    dv[j as int].name,
                                    dv[mi as int].name,
                                    dv[k].name,
                                );
                            } else {
                                crate::strutil::lemma_lex_le_refl(dv[j as int].name);
                            }
                        }
                    }
                    mi = j;
                } else {
                    proof {
                        let dv = pending.deep_view();
                        assert(pending@[j as int]@ == dv[j as int]);
                        assert(pending@[mi as int]@ == dv[mi as int]);
                        crate::strutil::lemma_lex_le_total(dv[mi as int].name, dv[j as int].name);
                    }
                }
                j = j + 1;
            }
            let ghost pre_out = out.deep_view();
            let ghost pre_pending = pending.deep_view();
            let s = pending.remove(mi);
            out.push(s);
            proof {
                pre_out.to_multiset_ensures();
                pre_pending.to_multiset_ensures();
                assert(s@ == pre_pending[mi as int]);
                assert(pending.deep_view() =~= pre_pending.remove(mi as int));
                assert(out.deep_view() =~= pre_out.push(s@));
                assert(pre_out.push(s@).to_multiset() =~= pre_out.to_multiset().insert(s@));
                assert(out.deep_view().to_multiset() =~= pre_out.to_multiset().insert(s@));
                assert(pre_pending.remove(mi as int).to_multiset() =~= pre_pending.to_multiset()
                    .remove(pre_pending[mi as int]));
                assert(pending.deep_view().to_multiset() =~= pre_pending.to_multiset().remove(s@));
                assert(pre_pending.contains(s@));
                assert(pre_pending.to_multiset().count(s@) > 0);
                assert(out.deep_view().to_multiset().add(pending.deep_view().to_multiset())
                    =~= pre_out.to_multiset().add(pre_pending.to_multiset()));
                assert forall|q: int| 0 <= q < pending.deep_view().len() implies lex_le(
                    s@.name,
                    (#[trigger] pending.deep_view()[q]).name,
                ) by {
                    if q < mi {
                        assert(pending.deep_view()[q] == pre_pending[q]);
                    } else {
                        assert(pending.deep_view()[q] == pre_pending[q + 1]);
                    }
                }
            }
        }
        out
    }

    /// The full read model of the backend with this id at instant `now_ms`:
    /// its configuration, status snapshot and cached capabilities. Unknown
    /// ids are reported.
    pub fn get_detail(&self, id: &str, now_ms: i64) -> (r: Result<McpDetail, String>)
        requires
            self.wf(),
            0 <= now_ms < MAX_TIMESTAMP_MILLIS,
        ensures
            match r {
                Result::Ok(d) => spec_has_conn(self.connections@, id@) && {
                    let c = self.connections@[conn_first_idx(self.connections@, id@)];
                    &&& d.config@ == c.config@
                    &&& d.status@ == crate::connection::spec_status(
                        c,
                        self.config.proxy_port,
                        now_ms,
                    )
                    &&& d.tools.deep_view() == c.tools.deep_view()
                    &&& d.resources.deep_view() == c.resources.deep_view()
                },
                Result::Err(m) => !spec_has_conn(self.connections@, id@) && m@ == msg_not_found(
                    id@,
                ),
            },
    {
        match self.find_conn(id) {
            Some(i) => {
                let c = &self.connections[i];
                let status = c.status(self.config.proxy_port, now_ms);
                let tools = c.get_tools();
                let resources = c.get_resources();
                Ok(McpDetail { config: c.config.duplicate(), status, tools, resources })
            },
            None => Err(build_msg_not_found(id)),
        }
    }
}

} // verus!
