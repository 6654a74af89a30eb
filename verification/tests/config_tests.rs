use local_mcp_proxy::config::ConfigManager;
use local_mcp_proxy::codec::{config_from_json, config_to_json, mcp_from_json, mcp_to_json};
use local_mcp_proxy::json::JsonValue;
use local_mcp_proxy::types::{
    default_connection_timeout, default_health_interval, default_max_reconnect,
    default_proxy_port, default_true, AppConfig, McpServerConfig, TransportType,
};

fn stdio_backend(id: &str, name: &str) -> McpServerConfig {
    McpServerConfig {
        id: id.to_string(),
        name: name.to_string(),
        transport_type: TransportType::Stdio,
        command: Some("npx -y @pkg/foo".to_string()),
        args: Some(vec!["--flag".to_string()]),
        url: None,
        env: Some(vec![("KEY".to_string(), "value".to_string())]),
        headers: None,
        enabled: true,
        disabled_tools: vec!["b".to_string()],
        disabled_resources: vec![],
    }
}

fn sse_backend(id: &str, name: &str) -> McpServerConfig {
    McpServerConfig {
        id: id.to_string(),
        name: name.to_string(),
        transport_type: TransportType::Sse,
        command: None,
        args: None,
        url: Some("http://127.0.0.1:8020/sse".to_string()),
        env: None,
        headers: Some(vec![("Authorization".to_string(), "Bearer local-test-token".to_string())]),
        enabled: true,
        disabled_tools: vec![],
        disabled_resources: vec!["file:///tmp/x".to_string()],
    }
}

fn base_config() -> AppConfig {
    AppConfig {
        proxy_port: 3001,
        health_check_interval_secs: 30,
        auto_reconnect: true,
        max_reconnect_attempts: 5,
        connection_timeout_secs: 30,
        mcps: vec![stdio_backend("a", "Alpha"), sse_backend("b", "Beta")],
    }
}

#[test]
fn defaults_match_the_documented_values() {
    assert!(default_true());
    assert_eq!(default_proxy_port(), 3001);
    assert_eq!(default_health_interval(), 30);
    assert_eq!(default_max_reconnect(), 5);
    assert_eq!(default_connection_timeout(), 30);
    let d = AppConfig::default();
    assert_eq!(d.proxy_port, 3001);
    assert_eq!(d.health_check_interval_secs, 30);
    assert!(d.auto_reconnect);
    assert_eq!(d.max_reconnect_attempts, 5);
    assert_eq!(d.connection_timeout_secs, 30);
    assert!(d.mcps.is_empty());
}

#[test]
fn validate_accepts_a_sound_config() {
    assert!(ConfigManager::validate(&base_config()).is_ok());
}

#[test]
fn validate_rejects_a_low_port() {
    let mut c = base_config();
    c.proxy_port = 1023;
    assert_eq!(ConfigManager::validate(&c).unwrap_err(), "Proxy port must be >= 1024");
}

#[test]
fn validate_rejects_a_short_health_interval() {
    let mut c = base_config();
    c.health_check_interval_secs = 4;
    assert_eq!(
        ConfigManager::validate(&c).unwrap_err(),
        "Health check interval must be >= 5 seconds"
    );
}

#[test]
fn validate_rejects_an_empty_id() {
    let mut c = base_config();
    c.mcps[0].id = String::new();
    assert_eq!(ConfigManager::validate(&c).unwrap_err(), "MCP ID cannot be empty");
}

#[test]
fn validate_rejects_an_empty_name() {
    let mut c = base_config();
    c.mcps[1].name = String::new();
    assert_eq!(ConfigManager::validate(&c).unwrap_err(), "MCP name cannot be empty");
}

#[test]
fn validate_rejects_a_stdio_backend_without_command() {
    let mut c = base_config();
    c.mcps[0].command = Some(String::new());
    assert_eq!(
        ConfigManager::validate(&c).unwrap_err(),
        "MCP 'Alpha': Stdio transport requires a command"
    );
    c.mcps[0].command = None;
    assert_eq!(
        ConfigManager::validate(&c).unwrap_err(),
        "MCP 'Alpha': Stdio transport requires a command"
    );
}

#[test]
fn validate_rejects_an_http_backend_without_url() {
    let mut c = base_config();
    c.mcps[1].url = None;
    assert_eq!(
        ConfigManager::validate(&c).unwrap_err(),
        "MCP 'Beta': HTTP/SSE transport requires a URL"
    );
}

#[test]
fn validate_reports_the_first_error_in_order() {
    let mut c = base_config();
    c.proxy_port = 80;
    c.mcps[0].id = String::new();
    assert_eq!(ConfigManager::validate(&c).unwrap_err(), "Proxy port must be >= 1024");
}

#[test]
fn config_manager_keeps_its_path() {
    let m = ConfigManager::new("/tmp/config.json".to_string());
    assert_eq!(m.config_path, "/tmp/config.json");
}

fn assert_backend_eq(a: &McpServerConfig, b: &McpServerConfig) {
    assert_eq!(a.id, b.id);
    assert_eq!(a.name, b.name);
    assert_eq!(a.transport_type, b.transport_type);
    assert_eq!(a.command, b.command);
    assert_eq!(a.args, b.args);
    assert_eq!(a.url, b.url);
    assert_eq!(a.env, b.env);
    assert_eq!(a.headers, b.headers);
    assert_eq!(a.enabled, b.enabled);
    assert_eq!(a.disabled_tools, b.disabled_tools);
    assert_eq!(a.disabled_resources, b.disabled_resources);
}

#[test]
fn saving_then_loading_gives_the_config_back() {
    let c = base_config();
    let doc = config_to_json(&c);
    let back = config_from_json(&doc).expect("round trip must decode");
    assert_eq!(back.proxy_port, c.proxy_port);
    assert_eq!(back.health_check_interval_secs, c.health_check_interval_secs);
    assert_eq!(back.auto_reconnect, c.auto_reconnect);
    assert_eq!(back.max_reconnect_attempts, c.max_reconnect_attempts);
    assert_eq!(back.connection_timeout_secs, c.connection_timeout_secs);
    assert_eq!(back.mcps.len(), c.mcps.len());
    for (x, y) in back.mcps.iter().zip(c.mcps.iter()) {
        assert_backend_eq(x, y);
    }
}

#[test]
fn backend_entry_round_trips() {
    let m = sse_backend("x", "Xena");
    let back = mcp_from_json(&mcp_to_json(&m)).expect("entry must decode");
    assert_backend_eq(&back, &m);
}

#[test]
fn decoding_populates_defaults_and_passes_unknown_fields_over() {
    let doc = JsonValue::Object(vec![
        ("unknown_knob".to_string(), JsonValue::Bool(true)),
        ("proxy_port".to_string(), JsonValue::Int(4010)),
    ]);
    let c = config_from_json(&doc).expect("defaults must decode");
    assert_eq!(c.proxy_port, 4010);
    assert_eq!(c.health_check_interval_secs, 30);
    assert!(c.auto_reconnect);
    assert_eq!(c.max_reconnect_attempts, 5);
    assert_eq!(c.connection_timeout_secs, 30);
    assert!(c.mcps.is_empty());
}

#[test]
fn decoding_rejects_a_wrongly_typed_field() {
    let doc = JsonValue::Object(vec![(
        "proxy_port".to_string(),
        JsonValue::Str("3001".to_string()),
    )]);
    assert!(config_from_json(&doc).is_none());
    let doc = JsonValue::Object(vec![("proxy_port".to_string(), JsonValue::Int(-1))]);
    assert!(config_from_json(&doc).is_none());
    let doc = JsonValue::Object(vec![("proxy_port".to_string(), JsonValue::Int(70000))]);
    assert!(config_from_json(&doc).is_none());
}

#[test]
fn decoding_a_backend_requires_id_name_and_transport() {
    let doc = JsonValue::Object(vec![("name".to_string(), JsonValue::Str("n".to_string()))]);
    assert!(mcp_from_json(&doc).is_none());
    let doc = JsonValue::Object(vec![
        ("id".to_string(), JsonValue::Str("i".to_string())),
        ("name".to_string(), JsonValue::Str("n".to_string())),
        ("transport_type".to_string(), JsonValue::Str("carrier_pigeon".to_string())),
    ]);
    assert!(mcp_from_json(&doc).is_none());
    let doc = JsonValue::Object(vec![
        ("id".to_string(), JsonValue::Str("i".to_string())),
        ("name".to_string(), JsonValue::Str("n".to_string())),
        ("transport_type".to_string(), JsonValue::Str("streamable_http".to_string())),
    ]);
    let m = mcp_from_json(&doc).expect("minimal entry must decode");
    assert!(m.enabled);
    assert!(m.command.is_none());
    assert!(m.disabled_tools.is_empty());
}
