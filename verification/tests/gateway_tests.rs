use local_mcp_proxy::gateway::{
    batch_responses, count_connected, delete_status, error_response, filter_listing,
    filter_resources, filter_tools, health_payload, initialize_response,
    invalid_request_response, plan_request, post_status, stream_get_status, success_response,
    wrap_response, DispatchOutcome, RpcAction,
};
use local_mcp_proxy::json::JsonValue;
use local_mcp_proxy::types::{ConnectionState, McpStatus, Resource, Tool, TransportType};

fn obj(pairs: Vec<(&str, JsonValue)>) -> JsonValue {
    JsonValue::Object(pairs.into_iter().map(|(k, v)| (k.to_string(), v)).collect())
}

fn s(x: &str) -> JsonValue {
    JsonValue::Str(x.to_string())
}

fn get<'a>(v: &'a JsonValue, key: &str) -> &'a JsonValue {
    v.get(key).expect("key must be present")
}

fn as_str(v: &JsonValue) -> &str {
    match v {
        JsonValue::Str(x) => x.as_str(),
        _ => panic!("not a string"),
    }
}

fn as_int(v: &JsonValue) -> i64 {
    match v {
        JsonValue::Int(x) => *x,
        _ => panic!("not an integer"),
    }
}

fn as_array(v: &JsonValue) -> &Vec<JsonValue> {
    match v {
        JsonValue::Array(x) => x,
        _ => panic!("not an array"),
    }
}

#[test]
fn a_request_without_id_is_a_notification() {
    let req = obj(vec![("jsonrpc", s("2.0")), ("method", s("ping"))]);
    match plan_request(&req) {
        RpcAction::Notify { method, .. } => assert_eq!(method, "ping"),
        _ => panic!("expected a notification"),
    }
}

#[test]
fn a_method_less_object_without_id_is_ignored() {
    let req = obj(vec![("jsonrpc", s("2.0"))]);
    assert!(matches!(plan_request(&req), RpcAction::Ignore));
    let req = obj(vec![("jsonrpc", s("2.0")), ("method", JsonValue::Int(5))]);
    assert!(matches!(plan_request(&req), RpcAction::Ignore));
}

#[test]
fn an_id_carrying_object_without_method_is_answered_with_an_error() {
    let req = obj(vec![("jsonrpc", s("2.0")), ("id", JsonValue::Int(1))]);
    let rpc_id = match plan_request(&req) {
        RpcAction::Invalid { id } => id,
        _ => panic!("expected an invalid-request plan"),
    };
    let resp = invalid_request_response(rpc_id);
    assert_eq!(as_int(get(&resp, "id")), 1);
    let err = get(&resp, "error");
    assert_eq!(as_int(get(err, "code")), -32600);
    assert_eq!(as_str(get(err, "message")), "Invalid Request");
}

#[test]
fn every_id_carrying_batch_element_is_answered() {
    let reqs = vec![
        obj(vec![("id", JsonValue::Int(1))]),
        obj(vec![("method", s("ping"))]),
        obj(vec![("id", JsonValue::Int(2)), ("method", s("ping"))]),
    ];
    let outcomes = vec![DispatchOutcome::Result(obj(vec![]))];
    let resp = batch_responses(&reqs, outcomes, &Vec::new(), &Vec::new());
    assert_eq!(resp.len(), 2);
    assert_eq!(as_int(get(&resp[0], "id")), 1);
    assert_eq!(as_int(get(get(&resp[0], "error"), "code")), -32600);
    assert_eq!(as_int(get(&resp[1], "id")), 2);
    assert!(resp[1].get("result").is_some());

    let lone = vec![obj(vec![("id", JsonValue::Int(1))])];
    let resp = batch_responses(&lone, Vec::new(), &Vec::new(), &Vec::new());
    assert_eq!(resp.len(), 1);
}

#[test]
fn post_answers_202_exactly_when_nothing_responds() {
    assert_eq!(post_status(0), 202);
    assert_eq!(post_status(1), 200);
    assert_eq!(post_status(3), 200);
}

#[test]
fn initialize_is_answered_by_the_gateway() {
    let req = obj(vec![
        ("jsonrpc", s("2.0")),
        ("id", JsonValue::Int(1)),
        ("method", s("initialize")),
        ("params", obj(vec![])),
    ]);
    let id = match plan_request(&req) {
        RpcAction::Initialize { id } => id,
        _ => panic!("expected the gateway to answer initialize"),
    };
    let resp = initialize_response(id);
    assert_eq!(as_str(get(&resp, "jsonrpc")), "2.0");
    assert_eq!(as_int(get(&resp, "id")), 1);
    let result = get(&resp, "result");
    assert_eq!(as_str(get(result, "protocolVersion")), "2025-03-26");
    let caps = get(result, "capabilities");
    assert!(caps.get("tools").is_some());
    assert!(caps.get("resources").is_some());
    assert!(caps.get("prompts").is_some());
    let info = get(result, "serverInfo");
    assert!(info.get("name").is_some());
    assert!(info.get("version").is_some());
}

#[test]
fn other_requests_become_forwarded_calls() {
    let req = obj(vec![
        ("jsonrpc", s("2.0")),
        ("id", JsonValue::Int(2)),
        ("method", s("tools/list")),
    ]);
    match plan_request(&req) {
        RpcAction::Call { method, params, id } => {
            assert_eq!(method, "tools/list");
            assert!(matches!(params, JsonValue::Null));
            assert_eq!(as_int(&id), 2);
        },
        _ => panic!("expected a forwarded call"),
    }
}

#[test]
fn disabled_tools_are_filtered_out_of_listing_responses() {
    let result = obj(vec![(
        "tools",
        JsonValue::Array(vec![
            obj(vec![("name", s("a"))]),
            obj(vec![("name", s("b"))]),
        ]),
    )]);
    let disabled = vec!["b".to_string()];
    let resp = wrap_response(
        "tools/list",
        JsonValue::Int(2),
        DispatchOutcome::Result(result),
        &disabled,
        &Vec::new(),
    );
    let tools = as_array(get(get(&resp, "result"), "tools"));
    assert_eq!(tools.len(), 1);
    assert_eq!(as_str(get(&tools[0], "name")), "a");
}

#[test]
fn disabled_resources_are_filtered_by_uri() {
    let result = obj(vec![(
        "resources",
        JsonValue::Array(vec![
            obj(vec![("uri", s("file:///keep"))]),
            obj(vec![("uri", s("file:///drop"))]),
        ]),
    )]);
    let disabled = vec!["file:///drop".to_string()];
    let filtered = filter_listing(result, "resources", "uri", &disabled);
    let items = as_array(get(&filtered, "resources"));
    assert_eq!(items.len(), 1);
    assert_eq!(as_str(get(&items[0], "uri")), "file:///keep");
}

#[test]
fn an_unknown_method_maps_to_method_not_found() {
    let resp = wrap_response(
        "nope/zzz",
        JsonValue::Int(3),
        DispatchOutcome::MethodNotFound,
        &Vec::new(),
        &Vec::new(),
    );
    assert_eq!(as_int(get(&resp, "id")), 3);
    let err = get(&resp, "error");
    assert_eq!(as_int(get(err, "code")), -32601);
    assert_eq!(as_str(get(err, "message")), "Method not found: nope/zzz");
}

#[test]
fn a_transport_failure_maps_to_server_error() {
    let resp = wrap_response(
        "tools/list",
        JsonValue::Int(4),
        DispatchOutcome::Failed("tools/list failed: transport closed".to_string()),
        &Vec::new(),
        &Vec::new(),
    );
    let err = get(&resp, "error");
    assert_eq!(as_int(get(err, "code")), -32000);
    assert!(as_str(get(err, "message")).contains("transport closed"));
}

#[test]
fn a_batch_with_a_notification_yields_one_response() {
    let reqs = vec![
        obj(vec![("jsonrpc", s("2.0")), ("method", s("ping"))]),
        obj(vec![("jsonrpc", s("2.0")), ("id", JsonValue::Int(7)), ("method", s("ping"))]),
    ];
    let outcomes = vec![DispatchOutcome::Result(obj(vec![]))];
    let resp = batch_responses(&reqs, outcomes, &Vec::new(), &Vec::new());
    assert_eq!(resp.len(), 1);
    assert_eq!(as_int(get(&resp[0], "id")), 7);
    assert!(resp[0].get("result").is_some());
}

#[test]
fn batch_responses_keep_request_order_and_count() {
    let reqs = vec![
        obj(vec![("id", JsonValue::Int(1)), ("method", s("initialize"))]),
        obj(vec![("method", s("ping"))]),
        obj(vec![("id", JsonValue::Int(2)), ("method", s("tools/list"))]),
        obj(vec![("id", JsonValue::Int(3)), ("method", s("prompts/list"))]),
    ];
    let outcomes = vec![
        DispatchOutcome::Result(obj(vec![("tools", JsonValue::Array(vec![]))])),
        DispatchOutcome::Failed("backend down".to_string()),
    ];
    let resp = batch_responses(&reqs, outcomes, &Vec::new(), &Vec::new());
    assert_eq!(resp.len(), 3);
    assert_eq!(as_int(get(&resp[0], "id")), 1);
    assert_eq!(as_int(get(&resp[1], "id")), 2);
    assert_eq!(as_int(get(&resp[2], "id")), 3);
}

#[test]
fn an_all_notification_batch_yields_no_responses() {
    let reqs = vec![
        obj(vec![("method", s("ping"))]),
        obj(vec![("method", s("notifications/progress"))]),
    ];
    let resp = batch_responses(&reqs, Vec::new(), &Vec::new(), &Vec::new());
    assert!(resp.is_empty());
}

#[test]
fn stream_routes_answer_by_backend_state() {
    assert_eq!(stream_get_status(false, ConnectionState::Connected), 404);
    assert_eq!(stream_get_status(true, ConnectionState::Disconnected), 503);
    assert_eq!(stream_get_status(true, ConnectionState::Connected), 405);
    assert_eq!(delete_status(true), 200);
    assert_eq!(delete_status(false), 404);
}

fn status_with_state(name: &str, state: ConnectionState) -> McpStatus {
    McpStatus {
        id: name.to_string(),
        name: name.to_string(),
        state,
        transport_type: TransportType::Stdio,
        connected_at: None,
        last_ping: None,
        error_message: None,
        tools_count: 0,
        resources_count: 0,
        uptime_seconds: None,
        proxy_url: None,
    }
}

#[test]
fn health_counts_connected_backends() {
    let statuses = vec![
        status_with_state("a", ConnectionState::Connected),
        status_with_state("b", ConnectionState::Error),
        status_with_state("c", ConnectionState::Connected),
    ];
    assert_eq!(count_connected(&statuses), 2);
    let body = health_payload(3, 2, "1970-01-01T00:00:00+00:00".to_string());
    assert_eq!(as_str(get(&body, "status")), "ok");
    assert!(matches!(get(&body, "total_mcps"), JsonValue::UInt(3)));
    assert!(matches!(get(&body, "connected_mcps"), JsonValue::UInt(2)));
}

#[test]
fn cached_listings_are_filtered_for_the_convenience_routes() {
    let tools = vec![
        Tool { name: "a".to_string(), description: None, input_schema: JsonValue::Null },
        Tool { name: "b".to_string(), description: None, input_schema: JsonValue::Null },
    ];
    let kept = filter_tools(tools, &vec!["b".to_string()]);
    assert_eq!(kept.len(), 1);
    assert_eq!(kept[0].name, "a");
    let resources = vec![Resource {
        uri: "file:///drop".to_string(),
        name: None,
        description: None,
        mime_type: None,
    }];
    let kept = filter_resources(resources, &vec!["file:///drop".to_string()]);
    assert!(kept.is_empty());
}

#[test]
fn envelopes_carry_the_fixed_fields() {
    let ok = success_response(JsonValue::Int(9), JsonValue::Bool(true));
    assert_eq!(as_str(get(&ok, "jsonrpc")), "2.0");
    assert!(matches!(get(&ok, "result"), JsonValue::Bool(true)));
    let err = error_response(JsonValue::Null, -32000, "boom".to_string());
    assert_eq!(as_int(get(get(&err, "error"), "code")), -32000);
    assert_eq!(as_str(get(get(&err, "error"), "message")), "boom");
}
