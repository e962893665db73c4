use aerial::mcp::{
    build_request, initialize_result, parse_rpc_line, plan_input_line, plan_message, tool_catalog, uuid_argument, ParamKind, RpcAction, RpcMessage,
    RpcParams, ToolArg, ToolArgs,
};
use aerial::mcp::{optional_str, optional_usize, required_str, required_uuid};
use aerial::protocol::DaemonRequest;

fn args(entries: &[(&str, ToolArg)]) -> ToolArgs {
    ToolArgs { entries: entries.iter().map(|(k, v)| (k.to_string(), v.clone())).collect() }
}

fn text(s: &str) -> ToolArg {
    ToolArg::Text(s.to_string())
}

fn call(id: &str, name: &str, arguments: ToolArgs) -> RpcMessage {
    RpcMessage {
        id: Some(id.to_string()),
        method: Some("tools/call".to_string()),
        params: Some(RpcParams { protocol_version: None, tool_name: Some(name.to_string()), arguments }),
    }
}

#[test]
fn initialize_echoes_client_protocol_version() {
    let params = RpcParams {
        protocol_version: Some("2025-06-18".to_string()),
        tool_name: None,
        arguments: ToolArgs::empty(),
    };
    let result = initialize_result(Some(&params));
    assert_eq!(result.protocol_version, "2025-06-18");
    assert_eq!(result.server_name, "aerial");
}

#[test]
fn initialize_falls_back_to_default_version() {
    let result = initialize_result(None);
    assert_eq!(result.protocol_version, "2024-11-05");
}

#[test]
fn tools_list_exposes_daemon_and_macro_tools() {
    let tools = tool_catalog();
    let names: Vec<&str> = tools.iter().map(|tool| tool.name.as_str()).collect();
    assert_eq!(names, ["register", "tell", "inbox", "done", "history", "status", "drain", "exchange"]);
}

#[test]
fn notifications_get_no_response() {
    let notification = RpcMessage {
        id: None,
        method: Some("notifications/initialized".to_string()),
        params: None,
    };
    assert_eq!(plan_message(&notification), RpcAction::Silent);
}

#[test]
fn unknown_method_is_a_json_rpc_error() {
    let request = RpcMessage { id: Some("1".to_string()), method: Some("does/not/exist".to_string()), params: None };
    match plan_message(&request) {
        RpcAction::Fail { id, code, message } => {
            assert_eq!(id, "1");
            assert_eq!(code, -32601);
            assert_eq!(message, "method not found: does/not/exist");
        }
        other => panic!("unexpected action: {other:?}"),
    }
}

#[test]
fn build_request_maps_register() {
    let request = build_request(Some("register"), &args(&[("name", text("jeff"))])).expect("register");
    assert_eq!(request, DaemonRequest::Register { name: "jeff".to_owned() });
}

#[test]
fn build_request_maps_tell_with_lineage() {
    let parent = uuid::Uuid::new_v4();
    let request = build_request(
        Some("tell"),
        &args(&[
            ("from", text("jeff")),
            ("to", text("carol")),
            ("body", text("hi")),
            ("in_reply_to", text(&parent.to_string())),
        ]),
    )
    .expect("tell");
    assert_eq!(
        request,
        DaemonRequest::Send {
            from: "jeff".to_owned(),
            to: "carol".to_owned(),
            body: "hi".to_owned(),
            in_reply_to: Some(parent.as_u128()),
            create: false,
        }
    );
}

#[test]
fn build_request_rejects_missing_required_argument() {
    let error = build_request(Some("tell"), &args(&[("from", text("jeff"))])).unwrap_err();
    assert!(error.contains("to"));
    assert_eq!(error, "missing required string argument: to");
}

#[test]
fn build_request_rejects_bad_uuid() {
    let error = build_request(Some("done"), &args(&[("agent", text("jeff")), ("id", text("not-a-uuid"))]))
        .unwrap_err();
    assert!(error.contains("uuid"));
    assert!(error.starts_with("argument id is not a valid uuid: "));
}

#[test]
fn build_request_maps_history_limit() {
    let request = build_request(Some("history"), &args(&[("limit", ToolArg::Unsigned(5))])).expect("history");
    assert_eq!(request, DaemonRequest::History { limit: Some(5) });
}

#[test]
fn tool_call_reports_unknown_tool_as_error() {
    match plan_message(&call("1", "nope", ToolArgs::empty())) {
        RpcAction::ToolFailed { id, message } => {
            assert_eq!(id, "1");
            assert_eq!(message, "unknown tool: nope");
        }
        other => panic!("unexpected action: {other:?}"),
    }
}

#[test]
fn tell_can_ask_to_create_the_recipient() {
    let request = build_request(
        Some("tell"),
        &args(&[("from", text("a")), ("to", text("b")), ("body", text("x")), ("create", ToolArg::Flag(true))]),
    )
    .expect("tell");
    assert_eq!(
        request,
        DaemonRequest::Send { from: "a".into(), to: "b".into(), body: "x".into(), in_reply_to: None, create: true }
    );
    let error = build_request(
        Some("tell"),
        &args(&[("from", text("a")), ("to", text("b")), ("body", text("x")), ("create", text("yes"))]),
    )
    .unwrap_err();
    assert_eq!(error, "argument create must be a boolean");
}

#[test]
fn argument_type_errors_are_explained() {
    let bad_limit = build_request(Some("history"), &args(&[("limit", text("5"))])).unwrap_err();
    assert_eq!(bad_limit, "argument limit must be a non-negative integer");
    let null_limit = build_request(Some("history"), &args(&[("limit", ToolArg::Null)])).expect("null");
    assert_eq!(null_limit, DaemonRequest::History { limit: None });
    let bad_parent = build_request(
        Some("tell"),
        &args(&[("from", text("a")), ("to", text("b")), ("body", text("x")), ("in_reply_to", ToolArg::Unsigned(3))]),
    )
    .unwrap_err();
    assert_eq!(bad_parent, "argument in_reply_to must be a string uuid");
    let missing_id = build_request(Some("done"), &args(&[("agent", text("a"))])).unwrap_err();
    assert_eq!(missing_id, "missing required uuid argument: id");
    assert_eq!(build_request(None, &ToolArgs::empty()).unwrap_err(), "missing tool name");
    assert_eq!(build_request(Some("inbox"), &args(&[("agent", text("bob"))])), Ok(DaemonRequest::Pending { agent: "bob".into() }));
}

#[test]
fn primitive_tools_become_daemon_requests() {
    let id = uuid::Uuid::new_v4();
    match plan_message(&call("7", "done", args(&[("agent", text("bob")), ("id", text(&id.to_string()))]))) {
        RpcAction::Request { id: rpc_id, request } => {
            assert_eq!(rpc_id, "7");
            assert_eq!(request, DaemonRequest::Ack { agent: "bob".into(), id: id.as_u128() });
        }
        other => panic!("unexpected action: {other:?}"),
    }
}

#[test]
fn macro_tools_are_planned() {
    assert_eq!(
        plan_message(&call("2", "status", args(&[("agent", text("bob")), ("limit", ToolArg::Unsigned(10))]))),
        RpcAction::Status { id: "2".into(), agent: Some("bob".into()), limit: Some(10) }
    );
    assert_eq!(
        plan_message(&call("3", "status", ToolArgs::empty())),
        RpcAction::Status { id: "3".into(), agent: None, limit: None }
    );
    assert_eq!(
        plan_message(&call("4", "drain", args(&[("agent", text("bob"))]))),
        RpcAction::Drain { id: "4".into(), agent: "bob".into() }
    );
    assert_eq!(
        plan_message(&call("5", "drain", ToolArgs::empty())),
        RpcAction::ToolFailed { id: "5".into(), message: "missing required string argument: agent".into() }
    );
    assert_eq!(
        plan_message(&call(
            "6",
            "exchange",
            args(&[("from", text("alice")), ("to", text("bob")), ("body", text("macro hi")), ("limit", ToolArg::Unsigned(10))])
        )),
        RpcAction::Exchange {
            id: "6".into(),
            from: "alice".into(),
            to: "bob".into(),
            body: "macro hi".into(),
            in_reply_to: None,
            limit: Some(10),
        }
    );
}

#[test]
fn rpc_framing_decisions() {
    let ping = RpcMessage { id: Some("9".into()), method: Some("ping".into()), params: None };
    assert_eq!(plan_message(&ping), RpcAction::Pong { id: "9".into() });
    let list = RpcMessage { id: Some("\"a\"".into()), method: Some("tools/list".into()), params: None };
    assert_eq!(plan_message(&list), RpcAction::ListTools { id: "\"a\"".into() });
    let no_method = RpcMessage { id: Some("null".into()), method: None, params: None };
    assert_eq!(
        plan_message(&no_method),
        RpcAction::Fail { id: "null".into(), code: -32600, message: "invalid request: missing method".into() }
    );
    let no_params = RpcMessage { id: Some("1".into()), method: Some("tools/call".into()), params: None };
    assert_eq!(
        plan_message(&no_params),
        RpcAction::Fail { id: "1".into(), code: -32602, message: "invalid params: missing params".into() }
    );
    let init = RpcMessage { id: Some("1".into()), method: Some("initialize".into()), params: None };
    assert_eq!(
        plan_message(&init),
        RpcAction::Initialize { id: "1".into(), protocol_version: "2024-11-05".into() }
    );
}

#[test]
fn uuid_argument_explains_parse_errors() {
    assert_eq!(uuid_argument("id", Ok(5)), Ok(Some(5)));
    assert_eq!(
        uuid_argument("id", Err("invalid length: found 3".to_string())),
        Err("argument id is not a valid uuid: invalid length: found 3".to_string())
    );
}

#[test]
fn optional_and_required_helpers_decode_arguments() {
    let id = uuid::Uuid::new_v4();
    let a = args(&[("name", text("x")), ("n", ToolArg::Unsigned(3)), ("id", text(&id.to_string())), ("f", ToolArg::Flag(true))]);
    assert_eq!(required_str(&a, "name"), Ok("x".to_string()));
    assert_eq!(required_str(&a, "n"), Err("missing required string argument: n".to_string()));
    assert_eq!(optional_str(&a, "name"), Some("x".to_string()));
    assert_eq!(optional_str(&a, "n"), None);
    assert_eq!(optional_usize(&a, "n"), Ok(Some(3)));
    assert_eq!(optional_usize(&a, "missing"), Ok(None));
    assert_eq!(required_uuid(&a, "id"), Ok(id.as_u128()));
    assert_eq!(
        required_uuid(&a, "f"),
        Err("argument f must be a string uuid".to_string())
    );
}

#[test]
fn tool_schemas_list_required_parameters() {
    let tools = tool_catalog();
    let required: Vec<(String, Vec<String>)> =
        tools.iter().map(|tool| (tool.name.clone(), tool.required_names())).collect();
    let expected: Vec<(&str, Vec<&str>)> = vec![
        ("register", vec!["name"]),
        ("tell", vec!["from", "to", "body"]),
        ("inbox", vec!["agent"]),
        ("done", vec!["agent", "id"]),
        ("history", vec![]),
        ("status", vec![]),
        ("drain", vec!["agent"]),
        ("exchange", vec!["from", "to", "body"]),
    ];
    assert_eq!(required.len(), expected.len());
    for ((name, names), (expected_name, expected_names)) in required.iter().zip(expected.iter()) {
        assert_eq!(name, expected_name);
        assert_eq!(names, expected_names);
    }
    for tool in &tools {
        for name in tool.required_names() {
            assert!(tool.params.iter().any(|param| param.name == name));
        }
    }
}

#[test]
fn tool_schema_parameter_kinds() {
    let tools = tool_catalog();
    let kinds = |i: usize| -> Vec<(String, &'static str)> {
        tools[i].params.iter().map(|param| (param.name.clone(), param.kind.json_type())).collect()
    };
    assert_eq!(kinds(0), vec![("name".to_string(), "string")]);
    assert_eq!(
        kinds(1),
        vec![
            ("from".to_string(), "string"),
            ("to".to_string(), "string"),
            ("body".to_string(), "string"),
            ("in_reply_to".to_string(), "string"),
            ("create".to_string(), "boolean"),
        ]
    );
    assert_eq!(kinds(4), vec![("limit".to_string(), "integer")]);
    assert_eq!(tools[3].params[1].description, "Envelope UUID to acknowledge.");
    assert_eq!(tools[7].description, "Register two agents, send a message, then return the recipient inbox and recent history.");
    assert_eq!(ParamKind::Flag.json_type(), "boolean");
}

#[test]
fn malformed_line_yields_parse_error_frame() {
    let line = "{ not json";
    let error = serde_json::from_str::<serde_json::Value>(line).unwrap_err().to_string();
    match plan_input_line(line) {
        RpcAction::Fail { id, code, message } => {
            assert_eq!(id, "null");
            assert_eq!(code, -32700);
            assert_eq!(message, format!("parse error: {error}"));
        }
        other => panic!("unexpected action: {other:?}"),
    }
}

#[test]
fn stdio_loop_frames_one_response_per_request_and_skips_notifications() {
    let input = [
        "{\"jsonrpc\":\"2.0\",\"id\":1,\"method\":\"initialize\",\"params\":{\"protocolVersion\":\"2025-06-18\"}}",
        "{\"jsonrpc\":\"2.0\",\"method\":\"notifications/initialized\"}",
        "",
        "{\"jsonrpc\":\"2.0\",\"id\":2,\"method\":\"tools/list\"}",
    ];
    let answered: Vec<RpcAction> =
        input.iter().map(|line| plan_input_line(line)).filter(|action| *action != RpcAction::Silent).collect();
    assert_eq!(answered.len(), 2, "exactly two responses expected");
    assert_eq!(answered[0], RpcAction::Initialize { id: "1".into(), protocol_version: "2025-06-18".into() });
    assert_eq!(answered[1], RpcAction::ListTools { id: "2".into() });
    assert_eq!(tool_catalog().len(), 8);
}

#[test]
fn blank_lines_are_skipped() {
    assert_eq!(plan_input_line("   \t"), RpcAction::Silent);
    assert_eq!(plan_input_line(""), RpcAction::Silent);
}

#[test]
fn input_lines_are_read_as_messages() {
    let line = "{\"jsonrpc\":\"2.0\",\"id\":\"a\",\"method\":\"tools/call\",\"params\":{\"name\":\"tell\",\"arguments\":{\"from\":\"jeff\",\"to\":\"carol\",\"body\":\"hi\",\"create\":true,\"n\":7,\"x\":null,\"y\":[1]}}}";
    let message = parse_rpc_line(line).expect("message");
    assert_eq!(message.id.as_deref(), Some("\"a\""));
    assert_eq!(message.method.as_deref(), Some("tools/call"));
    let params = message.params.clone().expect("params");
    assert_eq!(params.tool_name.as_deref(), Some("tell"));
    assert_eq!(params.protocol_version, None);
    assert_eq!(params.arguments.get("from"), Some(&ToolArg::Text("jeff".into())));
    assert_eq!(params.arguments.get("create"), Some(&ToolArg::Flag(true)));
    assert_eq!(params.arguments.get("n"), Some(&ToolArg::Unsigned(7)));
    assert_eq!(params.arguments.get("x"), Some(&ToolArg::Null));
    assert_eq!(params.arguments.get("y"), Some(&ToolArg::Other));
    assert_eq!(
        plan_input_line(line),
        RpcAction::Request {
            id: "\"a\"".into(),
            request: DaemonRequest::Send {
                from: "jeff".into(),
                to: "carol".into(),
                body: "hi".into(),
                in_reply_to: None,
                create: true,
            },
        }
    );
    let notification = parse_rpc_line("{\"method\":\"ping\"}").expect("message");
    assert_eq!(notification.id, None);
    assert_eq!(notification.params, None);
    let no_object = parse_rpc_line("{\"id\":4,\"method\":\"tools/call\",\"params\":{\"name\":\"history\",\"arguments\":5}}")
        .expect("message");
    assert!(no_object.params.expect("params").arguments.entries.is_empty());
    assert!(parse_rpc_line("[1,").is_err());
}
