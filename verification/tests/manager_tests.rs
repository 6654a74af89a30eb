use local_mcp_proxy::connection::{call_result, method_supported, proxy_url, wire_method, McpConnection};
use local_mcp_proxy::json::JsonValue;
use local_mcp_proxy::manager::{HealthAction, McpManager};
use local_mcp_proxy::types::{
    AppConfig, ConnectionState, McpServerConfig, TransportType,
};

fn backend(id: &str, name: &str, enabled: bool) -> McpServerConfig {
    McpServerConfig {
        id: id.to_string(),
        name: name.to_string(),
        transport_type: TransportType::StreamableHttp,
        command: None,
        args: None,
        url: Some(format!("http://127.0.0.1:9000/{}", id)),
        env: None,
        headers: None,
        enabled,
        disabled_tools: vec![],
        disabled_resources: vec![],
    }
}

fn config_with(mcps: Vec<McpServerConfig>) -> AppConfig {
    AppConfig {
        proxy_port: 3001,
        health_check_interval_secs: 30,
        auto_reconnect: true,
        max_reconnect_attempts: 2,
        connection_timeout_secs: 30,
        mcps,
    }
}

#[test]
fn a_valid_config_registers_one_supervisor_per_entry() {
    let cfg = config_with(vec![backend("a", "Alpha", true), backend("b", "Beta", true)]);
    let mut mgr = McpManager::new(cfg);
    mgr.initialize();
    assert_eq!(mgr.connections.len(), 2);
    assert!(mgr.find_conn("a").is_some());
    assert!(mgr.find_conn("b").is_some());
}

#[test]
fn disabled_backends_are_not_registered() {
    let cfg = config_with(vec![backend("a", "Alpha", true), backend("b", "Beta", false)]);
    let mut mgr = McpManager::new(cfg);
    mgr.initialize();
    assert_eq!(mgr.connections.len(), 1);
    assert!(mgr.find_conn("b").is_none());
}

#[test]
fn adding_a_duplicate_id_is_refused() {
    let mut mgr = McpManager::new(config_with(vec![]));
    assert_eq!(mgr.add_mcp(backend("x", "Xena", true)).unwrap(), "x");
    let err = mgr.add_mcp(backend("x", "Other", true)).unwrap_err();
    assert_eq!(err, "MCP with ID 'x' already exists");
    assert_eq!(mgr.connections.len(), 1);
    assert_eq!(mgr.config.mcps.len(), 1);
}

#[test]
fn update_replaces_the_runtime_and_the_entry() {
    let mut mgr = McpManager::new(config_with(vec![]));
    mgr.add_mcp(backend("x", "Xena", true)).unwrap();
    {
        let i = mgr.find_conn("x").unwrap();
        mgr.connections[i].finish_connect_ok(1_000, vec![], vec![]);
        assert_eq!(mgr.connections[i].get_state(), ConnectionState::Connected);
    }
    let mut changed = backend("x", "Xena Prime", true);
    changed.url = Some("http://127.0.0.1:9001/x".to_string());
    mgr.update_mcp(changed).unwrap();
    let i = mgr.find_conn("x").unwrap();
    assert_eq!(mgr.connections[i].get_state(), ConnectionState::Disconnected);
    assert_eq!(mgr.config.mcps.len(), 1);
    assert_eq!(mgr.config.mcps[0].name, "Xena Prime");
}

#[test]
fn update_appends_an_absent_entry() {
    let mut mgr = McpManager::new(config_with(vec![]));
    mgr.update_mcp(backend("y", "Ygritte", true)).unwrap();
    assert_eq!(mgr.connections.len(), 1);
    assert_eq!(mgr.config.mcps.len(), 1);
}

#[test]
fn remove_evicts_runtime_and_entry() {
    let mut mgr = McpManager::new(config_with(vec![]));
    mgr.add_mcp(backend("a", "Alpha", true)).unwrap();
    mgr.add_mcp(backend("b", "Beta", true)).unwrap();
    mgr.remove_mcp("a").unwrap();
    assert!(mgr.find_conn("a").is_none());
    assert_eq!(mgr.config.mcps.len(), 1);
    assert_eq!(mgr.config.mcps[0].id, "b");
}

#[test]
fn disconnect_reports_unknown_ids() {
    let mut mgr = McpManager::new(config_with(vec![]));
    assert_eq!(mgr.disconnect_mcp("ghost").unwrap_err(), "MCP 'ghost' not found");
}

#[test]
fn disabled_item_policy_lives_on_the_config_entry() {
    let mut mgr = McpManager::new(config_with(vec![]));
    mgr.add_mcp(backend("a", "Alpha", true)).unwrap();
    mgr.set_disabled_items("a", vec!["t1".to_string()], vec!["r1".to_string()]).unwrap();
    let (tools, resources) = mgr.get_disabled_items("a");
    assert_eq!(tools, vec!["t1".to_string()]);
    assert_eq!(resources, vec!["r1".to_string()]);
    assert!(mgr.set_disabled_items("ghost", vec![], vec![]).is_err());
    let (tools, resources) = mgr.get_disabled_items("ghost");
    assert!(tools.is_empty() && resources.is_empty());
}

#[test]
fn statuses_come_back_sorted_by_name() {
    let cfg = config_with(vec![
        backend("1", "Zulu", true),
        backend("2", "Alpha", true),
        backend("3", "Mike", true),
    ]);
    let mut mgr = McpManager::new(cfg);
    mgr.initialize();
    let statuses = mgr.list_statuses(0);
    let names: Vec<&str> = statuses.iter().map(|s| s.name.as_str()).collect();
    assert_eq!(names, vec!["Alpha", "Mike", "Zulu"]);
}

#[test]
fn the_proxy_url_is_present_exactly_when_connected() {
    let mut conn = McpConnection::new(backend("x", "Xena", true));
    let s = conn.status(3001, 5_000);
    assert!(s.proxy_url.is_none());
    assert!(s.connected_at.is_none());
    conn.finish_connect_ok(0, vec![], vec![]);
    let s = conn.status(3001, 5_000);
    assert_eq!(s.proxy_url.as_deref(), Some("http://127.0.0.1:3001/mcp/x"));
    assert_eq!(s.connected_at.as_deref(), Some("1970-01-01T00:00:00+00:00"));
    assert_eq!(s.uptime_seconds, Some(5));
    conn.disconnect();
    let s = conn.status(3001, 5_000);
    assert!(s.proxy_url.is_none());
}

#[test]
fn connect_failures_keep_the_error_and_count_nothing() {
    let mut conn = McpConnection::new(backend("x", "Xena", true));
    conn.begin_connect();
    assert_eq!(conn.get_state(), ConnectionState::Connecting);
    conn.finish_connect_err("spawn failed".to_string());
    assert_eq!(conn.get_state(), ConnectionState::Error);
    let s = conn.status(3001, 0);
    assert_eq!(s.error_message.as_deref(), Some("spawn failed"));
    assert_eq!(conn.get_reconnect_attempts(), 0);
}

#[test]
fn a_successful_connect_resets_the_attempt_counter() {
    let mut conn = McpConnection::new(backend("x", "Xena", true));
    conn.increment_reconnect_attempts();
    conn.increment_reconnect_attempts();
    assert_eq!(conn.get_reconnect_attempts(), 2);
    conn.finish_connect_ok(1_000, vec![], vec![]);
    assert_eq!(conn.get_reconnect_attempts(), 0);
    assert!(conn.error_message.is_none());
}

#[test]
fn health_actions_follow_state_and_policy() {
    let cfg = config_with(vec![backend("a", "Alpha", true), backend("b", "Beta", false)]);
    let mut mgr = McpManager::new(cfg);
    mgr.initialize();
    assert_eq!(mgr.connections.len(), 1);
    assert_eq!(mgr.health_action(0), HealthAction::Reconnect);
    mgr.connections[0].finish_connect_ok(0, vec![], vec![]);
    assert_eq!(mgr.health_action(0), HealthAction::Ping);
    mgr.connections[0].begin_connect();
    assert_eq!(mgr.health_action(0), HealthAction::Skip);
}

#[test]
fn reconnect_attempts_stay_under_the_cap() {
    let cfg = config_with(vec![backend("a", "Alpha", true)]);
    let mut mgr = McpManager::new(cfg);
    mgr.initialize();
    let mut granted: u32 = 0;
    for _ in 0..10 {
        if mgr.grant_reconnect(0) {
            granted += 1;
            mgr.connections[0].begin_connect();
            mgr.connections[0].finish_connect_err("still down".to_string());
        }
    }
    assert_eq!(granted, 2);
    assert_eq!(mgr.connections[0].get_reconnect_attempts(), 2);
}

#[test]
fn shutdown_disconnects_every_backend() {
    let cfg = config_with(vec![backend("a", "Alpha", true), backend("b", "Beta", true)]);
    let mut mgr = McpManager::new(cfg);
    mgr.initialize();
    mgr.connections[0].finish_connect_ok(0, vec![], vec![]);
    mgr.shutdown();
    for c in mgr.connections.iter() {
        assert_eq!(c.get_state(), ConnectionState::Disconnected);
    }
}

#[test]
fn details_carry_config_status_and_caches() {
    let cfg = config_with(vec![backend("a", "Alpha", true)]);
    let mut mgr = McpManager::new(cfg);
    mgr.initialize();
    let d = mgr.get_detail("a", 0).unwrap();
    assert_eq!(d.config.id, "a");
    assert_eq!(d.status.name, "Alpha");
    assert!(d.tools.is_empty());
    assert!(d.resources.is_empty());
    assert_eq!(mgr.get_detail("ghost", 0).unwrap_err(), "MCP 'ghost' not found");
}

#[test]
fn update_config_leaves_the_backend_list_alone() {
    let mut mgr = McpManager::new(config_with(vec![backend("a", "Alpha", true)]));
    let knobs = AppConfig {
        proxy_port: 4000,
        health_check_interval_secs: 10,
        auto_reconnect: false,
        max_reconnect_attempts: 9,
        connection_timeout_secs: 60,
        mcps: vec![],
    };
    mgr.update_config(knobs);
    assert_eq!(mgr.config.proxy_port, 4000);
    assert_eq!(mgr.config.health_check_interval_secs, 10);
    assert!(!mgr.config.auto_reconnect);
    assert_eq!(mgr.config.max_reconnect_attempts, 9);
    assert_eq!(mgr.config.connection_timeout_secs, 60);
    assert_eq!(mgr.config.mcps.len(), 1);
}

#[test]
fn the_gui_proxy_url_is_the_gateway_route() {
    let mgr = McpManager::new(config_with(vec![]));
    assert_eq!(mgr.get_proxy_url("abc"), "http://127.0.0.1:3001/mcp/abc");
    assert_eq!(proxy_url(8080, "x y"), "http://127.0.0.1:8080/mcp/x y");
}

#[test]
fn only_whitelisted_methods_are_forwarded() {
    for m in [
        "ping",
        "tools/list",
        "tools/call",
        "resources/list",
        "resources/read",
        "resources/templates/list",
        "prompts/list",
        "prompts/get",
        "completion/complete",
        "logging/setLevel",
    ] {
        assert!(method_supported(m), "{m} must be supported");
    }
    assert!(!method_supported("nope/zzz"));
    assert!(!method_supported("initialize"));
}

#[test]
fn initialize_never_registers_a_backend_twice() {
    let cfg = config_with(vec![backend("a", "Alpha", true)]);
    let mut mgr = McpManager::new(cfg);
    mgr.initialize();
    mgr.initialize();
    assert_eq!(mgr.connections.len(), 1);
}

#[test]
fn uptime_is_absent_for_an_instant_before_the_connect() {
    let mut conn = McpConnection::new(backend("x", "Xena", true));
    conn.finish_connect_ok(10_000, vec![], vec![]);
    let s = conn.status(3001, 4_000);
    assert_eq!(s.uptime_seconds, None);
    assert!(s.proxy_url.is_some());
}

#[test]
fn connect_mcp_marks_the_backend_connecting() {
    let mut mgr = McpManager::new(config_with(vec![backend("a", "Alpha", true)]));
    mgr.initialize();
    mgr.connect_mcp("a").unwrap();
    let i = mgr.find_conn("a").unwrap();
    assert_eq!(mgr.connections[i].get_state(), ConnectionState::Connecting);
    assert!(!mgr.connections[i].can_execute());
    assert_eq!(mgr.connect_mcp("ghost").unwrap_err(), "MCP 'ghost' not found");
}

#[test]
fn ping_rides_on_tools_list_and_reports_an_empty_object() {
    assert_eq!(wire_method("ping"), "tools/list");
    assert_eq!(wire_method("tools/call"), "tools/call");
    let listing = JsonValue::Object(vec![(
        "tools".to_string(),
        JsonValue::Array(vec![]),
    )]);
    match call_result("ping", listing) {
        JsonValue::Object(pairs) => assert!(pairs.is_empty()),
        _ => panic!("expected an empty object"),
    }
    match call_result("tools/list", JsonValue::Bool(true)) {
        JsonValue::Bool(true) => {}
        _ => panic!("expected the result untouched"),
    }
}
