//! Configuration contract: where the file lives and when a configuration is
//! acceptable. Reading and writing the file itself is I/O and stays outside
//! the library; the JSON shape of the file is fixed by [`crate::codec`].

use vstd::prelude::*;
use crate::types::{AppConfig, AppConfigV, McpServerConfigV, TransportType};

verus! {

/// Manages the JSON configuration file at a fixed path.
pub struct ConfigManager {
    pub config_path: String,
}

/// The message given for a port below the reserved range.
pub open spec fn msg_port_too_low() -> Seq<char> {
    "Proxy port must be >= 1024"@
}

/// The message given for a too-frequent health cycle.
pub open spec fn msg_interval_too_short() -> Seq<char> {
    "Health check interval must be >= 5 seconds"@
}

/// The message given for a backend entry without an id.
pub open spec fn msg_empty_id() -> Seq<char> {
    "MCP ID cannot be empty"@
}

/// The message given for a backend entry without a name.
pub open spec fn msg_empty_name() -> Seq<char> {
    "MCP name cannot be empty"@
}

/// The message given for a stdio backend without a command.
pub open spec fn msg_missing_command(name: Seq<char>) -> Seq<char> {
    "MCP '"@ + name + "': Stdio transport requires a command"@
}

/// The message given for an HTTP or SSE backend without a URL.
pub open spec fn msg_missing_url(name: Seq<char>) -> Seq<char> {
    "MCP '"@ + name + "': HTTP/SSE transport requires a URL"@
}

/// The validation error of one backend entry, if any.
pub open spec fn entry_error(m: McpServerConfigV) -> Option<Seq<char>> {
    if m.id.len() == 0 {
        Option::Some(msg_empty_id())
    } else if m.name.len() == 0 {
        Option::Some(msg_empty_name())
    } else {
        match m.transport_type {
            TransportType::Stdio => {
                if m.command matches Option::Some(c) && c.len() > 0 {
                    Option::None
                } else {
                    Option::Some(msg_missing_command(m.name))
                }
            },
            _ => {
                if m.url matches Option::Some(u) && u.len() > 0 {
                    Option::None
                } else {
                    Option::Some(msg_missing_url(m.name))
                }
            },
        }
    }
}

/// The first backend entry error, in list order, if any.
pub open spec fn first_entry_error(mcps: Seq<McpServerConfigV>) -> Option<Seq<char>>
    decreases mcps.len(),
{
    if mcps.len() == 0 {
        Option::None
    } else if entry_error(mcps[0]) is Some {
        entry_error(mcps[0])
    } else {
        first_entry_error(mcps.drop_first())
    }
}

/// The validation outcome of a whole configuration: the first error message
/// in checking order, or nothing when the configuration is acceptable.
pub open spec fn spec_validate(c: AppConfigV) -> Option<Seq<char>> {
    if c.proxy_port < 1024 {
        Option::Some(msg_port_too_low())
    } else if c.health_check_interval_secs < 5 {
        Option::Some(msg_interval_too_short())
    } else {
        first_entry_error(c.mcps)
    }
}

proof fn lemma_first_entry_error_at(mcps: Seq<McpServerConfigV>, j: int)
    requires
        0 <= j < mcps.len(),
        forall|k: int| 0 <= k < j ==> entry_error(#[trigger] mcps[k]) is None,
        entry_error(mcps[j]) is Some,
    ensures
        first_entry_error(mcps) == entry_error(mcps[j]),
    decreases j,
{
    if j > 0 {
        lemma_first_entry_error_at(mcps.drop_first(), j - 1);
    }
}

proof fn lemma_first_entry_error_none(mcps: Seq<McpServerConfigV>)
    requires
        forall|k: int| 0 <= k < mcps.len() ==> entry_error(#[trigger] mcps[k]) is None,
    ensures
        first_entry_error(mcps) is None,
    decreases mcps.len(),
{
    if mcps.len() > 0 {
        lemma_first_entry_error_none(mcps.drop_first());
    }
}

fn entry_error_exec(m: &crate::types::McpServerConfig) -> (r: Option<String>)
    ensures
        match r {
            Option::Some(s) => entry_error(m@) == Option::Some(s@),
            Option::None => entry_error(m@) is None,
        },
{
    if m.id.as_str().is_empty() {
        return Some("MCP ID cannot be empty".to_owned());
    }
    if m.name.as_str().is_empty() {
        return Some("MCP name cannot be empty".to_owned());
    }
    match m.transport_type {
        TransportType::Stdio => {
            let missing = match &m.command {
                Option::Some(c) => c.as_str().is_empty(),
                Option::None => true,
            };
            if missing {
                let mut s = "MCP '".to_owned();
                s.append(m.name.as_str());
                s.append("': Stdio transport requires a command");
                proof {
                    assert(s@ =~= msg_missing_command(m@.name));
                }
                Some(s)
            } else {
                None
            }
        },
        _ => {
            let missing = match &m.url {
                Option::Some(u) => u.as_str().is_empty(),
                Option::None => true,
            };
            if missing {
                let mut s = "MCP '".to_owned();
                s.append(m.name.as_str());
                s.append("': HTTP/SSE transport requires a URL");
                proof {
                    assert(s@ =~= msg_missing_url(m@.name));
                }
                Some(s)
            } else {
                None
            }
        },
    }
}

impl ConfigManager {
    /// A manager for the configuration file at `config_path`.
    pub fn new(config_path: String) -> (r: Self)
        ensures
            r.config_path == config_path,
    {
        ConfigManager { config_path }
    }

    /// Checks a configuration, giving the first violation in checking order:
    /// the port floor, then the health-interval floor, then each backend
    /// entry in list order.
    pub fn validate(config: &AppConfig) -> (r: Result<(), String>)
        ensures
            match r {
                Result::Ok(()) => spec_validate(config@) is None,
                Result::Err(m) => spec_validate(config@) == Option::Some(m@),
            },
    {
        if config.proxy_port < 1024 {
            return Err("Proxy port must be >= 1024".to_owned());
        }
        if config.health_check_interval_secs < 5 {
            return Err("Health check interval must be >= 5 seconds".to_owned());
        }
        let n = config.mcps.len();
        let mut i: usize = 0;
        while i < n
            invariant
                n == config.mcps@.len(),
                i <= n,
                config.proxy_port >= 1024,
                config.health_check_interval_secs >= 5,
                forall|k: int| 0 <= k < i ==> entry_error(#[trigger] config@.mcps[k]) is None,
            decreases n - i,
        {
            proof {
                assert(config@.mcps[i as int] == config.mcps@[i as int]@);
            }
            if let Some(msg) = entry_error_exec(&config.mcps[i]) {
                proof {
                    lemma_first_entry_error_at(config@.mcps, i as int);
                }
                return Err(msg);
            }
            i = i + 1;
        }
        proof {
            lemma_first_entry_error_none(config@.mcps);
        }
        Ok(())
    }
}

} // verus!
