use local_mcp_proxy::bridge::{
    bridge_reply, parse_args, parse_u16, BridgeReply, PostOutcome,
};
use local_mcp_proxy::codec::{resources_from_json, tools_from_json};
use local_mcp_proxy::json::JsonValue;
use local_mcp_proxy::sse::{endpoint_event, message_event, LegacySseError, LegacySseWorker};
use local_mcp_proxy::strutil::{str_lex_le, str_trim, u64_to_string};
use local_mcp_proxy::transport::{
    delete_session_disposition, display_command, initialize_params, notification_envelope,
    request_envelope, split_command, split_response, tokens, BackendReply, DeleteDisposition,
};

fn obj(pairs: Vec<(&str, JsonValue)>) -> JsonValue {
    JsonValue::Object(pairs.into_iter().map(|(k, v)| (k.to_string(), v)).collect())
}

fn s(x: &str) -> JsonValue {
    JsonValue::Str(x.to_string())
}

#[test]
fn ports_parse_as_the_standard_parser_reads_them() {
    assert_eq!(parse_u16("80"), Some(80));
    assert_eq!(parse_u16("+80"), Some(80));
    assert_eq!(parse_u16("65535"), Some(65535));
    assert_eq!(parse_u16("65536"), None);
    assert_eq!(parse_u16(""), None);
    assert_eq!(parse_u16("+"), None);
    assert_eq!(parse_u16("12a"), None);
    assert_eq!(parse_u16("-1"), None);
    assert_eq!(parse_u16("999999999999999999999"), None);
}

#[test]
fn the_bridge_command_line_parses() {
    let args = vec!["--mcp-id".to_string(), "abc".to_string()];
    let a = parse_args(&args).unwrap();
    assert_eq!(a.mcp_id, "abc");
    assert_eq!(a.port, 3001);

    let args = vec![
        "--port".to_string(),
        "4010".to_string(),
        "--mcp-id".to_string(),
        "abc".to_string(),
    ];
    let a = parse_args(&args).unwrap();
    assert_eq!(a.port, 4010);
}

#[test]
fn the_bridge_command_line_reports_each_error() {
    assert_eq!(parse_args(&vec![]).unwrap_err(), "--mcp-id is required");
    assert_eq!(
        parse_args(&vec!["--port".to_string()]).unwrap_err(),
        "--port requires a value"
    );
    assert_eq!(
        parse_args(&vec!["--port".to_string(), "nan".to_string()]).unwrap_err(),
        "invalid port: nan"
    );
    assert_eq!(
        parse_args(&vec!["--mcp-id".to_string()]).unwrap_err(),
        "--mcp-id requires a value"
    );
    assert_eq!(
        parse_args(&vec!["--verbose".to_string()]).unwrap_err(),
        "unknown argument: --verbose"
    );
}

#[test]
fn a_successful_post_passes_the_body_through() {
    let req = obj(vec![("id", JsonValue::Int(9)), ("method", s("tools/list"))]);
    let body = "{\"jsonrpc\":\"2.0\",\"id\":9,\"result\":{\"tools\":[]}}".to_string();
    match bridge_reply(&req, PostOutcome::Response { status: 200, body: body.clone() }) {
        BridgeReply::EmitBody(b) => assert_eq!(b, body),
        _ => panic!("expected the body to pass through"),
    }
}

#[test]
fn an_accepted_notification_stays_silent() {
    let req = obj(vec![("method", s("ping"))]);
    let r = bridge_reply(&req, PostOutcome::Response { status: 202, body: String::new() });
    assert!(matches!(r, BridgeReply::Silent));
}

#[test]
fn an_unreachable_proxy_synthesizes_an_error_for_requests() {
    let req = obj(vec![("id", JsonValue::Int(5)), ("method", s("ping"))]);
    match bridge_reply(&req, PostOutcome::NetworkError("connection refused".to_string())) {
        BridgeReply::EmitJson(doc) => {
            let err = doc.get("error").unwrap();
            assert!(matches!(err.get("code"), Some(JsonValue::Int(-32000))));
            match err.get("message") {
                Some(JsonValue::Str(m)) => {
                    assert_eq!(m, "proxy unreachable: connection refused")
                },
                _ => panic!("expected a message"),
            }
        },
        _ => panic!("expected a synthesized error"),
    }
    let notif = obj(vec![("method", s("ping"))]);
    let r = bridge_reply(&notif, PostOutcome::NetworkError("x".to_string()));
    assert!(matches!(r, BridgeReply::Silent));
}

#[test]
fn an_http_error_synthesizes_an_error_with_the_status() {
    let req = obj(vec![("id", JsonValue::Int(5))]);
    match bridge_reply(
        &req,
        PostOutcome::Response { status: 503, body: "busy".to_string() },
    ) {
        BridgeReply::EmitJson(doc) => {
            match doc.get("error").unwrap().get("message") {
                Some(JsonValue::Str(m)) => assert_eq!(m, "HTTP 503: busy"),
                _ => panic!("expected a message"),
            }
        },
        _ => panic!("expected a synthesized error"),
    }
}

#[test]
fn command_lines_split_on_whitespace() {
    let cfg_args = vec!["--flag".to_string()];
    let (exe, args) = split_command("npx -y @pkg/foo", &cfg_args).unwrap();
    assert_eq!(exe, "npx");
    assert_eq!(args, vec!["-y".to_string(), "@pkg/foo".to_string(), "--flag".to_string()]);

    let (exe, args) = split_command("server", &Vec::new()).unwrap();
    assert_eq!(exe, "server");
    assert!(args.is_empty());

    assert_eq!(
        split_command("   ", &Vec::new()).unwrap_err(),
        "No command specified for stdio transport"
    );
}

#[test]
fn tokenizing_skips_runs_of_whitespace() {
    assert_eq!(tokens("  a \t b\nc  "), vec!["a", "b", "c"]);
    assert!(tokens("").is_empty());
    assert_eq!(
        display_command("npx", &vec!["-y".to_string(), "@pkg/foo".to_string()]),
        "npx -y @pkg/foo"
    );
    assert_eq!(display_command("srv", &Vec::new()), "srv");
}

#[test]
fn session_delete_answers_are_classified_tolerantly() {
    assert_eq!(delete_session_disposition(204), DeleteDisposition::Accepted);
    assert_eq!(delete_session_disposition(405), DeleteDisposition::Accepted);
    assert_eq!(delete_session_disposition(404), DeleteDisposition::Benign);
    assert_eq!(delete_session_disposition(400), DeleteDisposition::Benign);
    assert_eq!(delete_session_disposition(500), DeleteDisposition::Warned);
}

#[test]
fn the_sse_worker_keeps_scheme_host_and_port() {
    let w = LegacySseWorker::from_url("http://127.0.0.1:8020/sse").unwrap();
    assert_eq!(w.base_url, "http://127.0.0.1:8020");
    assert_eq!(w.sse_path, "/sse");
    assert!(w.headers.is_empty());
    let w = w.with_headers(vec![("Authorization".to_string(), "Bearer local-test-token".to_string())]);
    assert_eq!(w.headers.len(), 1);
    assert_eq!(w.full_url("/messages?sid=1"), "http://127.0.0.1:8020/messages?sid=1");
    assert_eq!(w.full_url("https://other/messages"), "https://other/messages");
}

#[test]
fn the_sse_worker_defaults_the_port_and_rejects_bad_urls() {
    let w = LegacySseWorker::from_url("https://example.com/sse").unwrap();
    assert_eq!(w.base_url, "https://example.com");
    match LegacySseWorker::from_url("not a url") {
        Err(LegacySseError::InvalidUrl(m)) => assert!(m.starts_with("not a url: ")),
        _ => panic!("expected an invalid URL error"),
    }
}

#[test]
fn endpoint_events_carry_the_trimmed_endpoint() {
    assert_eq!(
        endpoint_event(Some("endpoint".to_string()), Some(" /messages \n".to_string())),
        Some("/messages".to_string())
    );
    assert_eq!(endpoint_event(Some("endpoint".to_string()), None), None);
    assert_eq!(endpoint_event(None, Some("/messages".to_string())), None);
    assert_eq!(endpoint_event(Some("noise".to_string()), Some("x".to_string())), None);
}

#[test]
fn message_events_skip_blanks_and_duplicate_endpoints() {
    assert_eq!(
        message_event(None, Some(" {\"id\":1} ".to_string())),
        Some("{\"id\":1}".to_string())
    );
    assert_eq!(
        message_event(Some("message".to_string()), Some("x".to_string())),
        Some("x".to_string())
    );
    assert_eq!(message_event(Some("message".to_string()), Some("  ".to_string())), None);
    assert_eq!(message_event(Some("endpoint".to_string()), Some("/again".to_string())), None);
}

#[test]
fn capability_listings_decode_from_json() {
    let result = obj(vec![(
        "tools",
        JsonValue::Array(vec![
            obj(vec![("name", s("alpha")), ("description", s("first"))]),
            obj(vec![("notaname", s("x"))]),
            obj(vec![("name", s("beta")), ("inputSchema", obj(vec![("type", s("object"))]))]),
        ]),
    )]);
    let tools = tools_from_json(&result);
    assert_eq!(tools.len(), 2);
    assert_eq!(tools[0].name, "alpha");
    assert_eq!(tools[0].description.as_deref(), Some("first"));
    assert_eq!(tools[1].name, "beta");

    let result = obj(vec![(
        "resources",
        JsonValue::Array(vec![obj(vec![
            ("uri", s("file:///a")),
            ("name", s("A")),
            ("mimeType", s("text/plain")),
        ])]),
    )]);
    let resources = resources_from_json(&result);
    assert_eq!(resources.len(), 1);
    assert_eq!(resources[0].uri, "file:///a");
    assert_eq!(resources[0].mime_type.as_deref(), Some("text/plain"));

    assert!(tools_from_json(&JsonValue::Null).is_empty());
    assert!(resources_from_json(&obj(vec![])).is_empty());
}

#[test]
fn noisy_headers_are_skipped_rather_than_fatal() {
    let headers = vec![
        ("Authorization".to_string(), "Bearer ok".to_string()),
        ("Bad Name".to_string(), "x".to_string()),
        ("X-Fine".to_string(), "line\nbreak".to_string()),
    ];
    let kept = local_mcp_proxy::transport::select_valid_headers(&headers);
    assert_eq!(kept.len(), 1);
    assert_eq!(kept[0].0, "Authorization");
}

#[test]
fn string_helpers_behave() {
    assert_eq!(u64_to_string(0), "0");
    assert_eq!(u64_to_string(65535), "65535");
    assert_eq!(str_trim("  x  "), "x");
    assert_eq!(str_trim("\t\n"), "");
    assert!(str_lex_le("Alpha", "Beta"));
    assert!(str_lex_le("a", "ab"));
    assert!(!str_lex_le("b", "ab"));
    assert!(str_lex_le("same", "same"));
}

#[test]
fn object_lookup_finds_the_first_binding() {
    let doc = obj(vec![("k", s("first")), ("k", s("second"))]);
    match doc.get("k") {
        Some(JsonValue::Str(v)) => assert_eq!(v, "first"),
        _ => panic!("expected the first binding"),
    }
    assert!(doc.get("missing").is_none());
    assert!(JsonValue::Null.get("k").is_none());
}

#[test]
fn a_deep_copy_is_structurally_equal() {
    let doc = obj(vec![
        ("a", JsonValue::Array(vec![s("x"), JsonValue::Int(-3), JsonValue::Null])),
        ("b", obj(vec![("inner", JsonValue::UInt(7))])),
        ("c", JsonValue::Float("2.5".to_string())),
    ]);
    let copy = doc.duplicate();
    let inner = copy.get("b").unwrap().get("inner").unwrap();
    assert!(matches!(inner, JsonValue::UInt(7)));
    match copy.get("a") {
        Some(JsonValue::Array(items)) => assert_eq!(items.len(), 3),
        _ => panic!("expected the array to survive"),
    }
}

#[test]
fn outbound_envelopes_carry_the_fixed_fields() {
    let env = request_envelope(7, "tools/call", obj(vec![("name", s("x"))]));
    match env.get("jsonrpc") {
        Some(JsonValue::Str(v)) => assert_eq!(v, "2.0"),
        _ => panic!("expected the protocol marker"),
    }
    assert!(matches!(env.get("id"), Some(JsonValue::UInt(7))));
    match env.get("method") {
        Some(JsonValue::Str(m)) => assert_eq!(m, "tools/call"),
        _ => panic!("expected the method"),
    }
    assert!(env.get("params").unwrap().get("name").is_some());

    let note = notification_envelope("notifications/initialized", JsonValue::Null);
    assert!(note.get("id").is_none());
    assert!(matches!(note.get("params"), Some(JsonValue::Null)));
}

#[test]
fn the_handshake_parameters_name_the_protocol_revision() {
    let p = initialize_params();
    match p.get("protocolVersion") {
        Some(JsonValue::Str(v)) => assert_eq!(v, "2025-03-26"),
        _ => panic!("expected the protocol revision"),
    }
    assert!(p.get("capabilities").is_some());
    let info = p.get("clientInfo").unwrap();
    assert!(info.get("name").is_some());
    assert!(info.get("version").is_some());
}

#[test]
fn response_envelopes_split_into_error_or_result() {
    let resp = obj(vec![("id", JsonValue::Int(1)), ("result", s("fine"))]);
    match split_response(&resp) {
        BackendReply::Payload(JsonValue::Str(v)) => assert_eq!(v, "fine"),
        _ => panic!("expected the result"),
    }
    let resp = obj(vec![("id", JsonValue::Int(1))]);
    assert!(matches!(split_response(&resp), BackendReply::Payload(JsonValue::Null)));
    let resp = obj(vec![
        ("id", JsonValue::Int(1)),
        ("error", obj(vec![("code", JsonValue::Int(-32000))])),
    ]);
    match split_response(&resp) {
        BackendReply::Failure(e) => {
            assert!(matches!(e.get("code"), Some(JsonValue::Int(-32000))))
        }
        _ => panic!("expected the error"),
    }
}

#[test]
fn non_ascii_header_values_are_accepted_and_control_bytes_are_not() {
    let headers = vec![
        ("x-greeting".to_string(), "gr\u{00fc}ezi".to_string()),
        ("x-tabbed".to_string(), "a\tb".to_string()),
        ("x-broken".to_string(), "a\u{0007}b".to_string()),
    ];
    let kept = local_mcp_proxy::transport::select_valid_headers(&headers);
    assert_eq!(kept.len(), 2);
    assert_eq!(kept[0].0, "x-greeting");
    assert_eq!(kept[1].0, "x-tabbed");
}
