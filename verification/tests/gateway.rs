use combine_mcp::aggregator::{BackendStart, MCPAggregator};
use combine_mcp::config::{Config, ServerConfig, ServerEntry};
use combine_mcp::error::AppError;
use combine_mcp::json::{parse, Json};
use combine_mcp::server::{give_up, handle_call_tool, handle_list_tools, process_request, relay, run};
use combine_mcp::server::{Dispatch, Gateway, GatewayState, JsonRpcRequest, JsonRpcResponse, Reaction};
use combine_mcp::session::{CallKind, Inbound, PendingCall};
use combine_mcp::startup::{Progress, Startup};

fn config(names: &[&str]) -> Config {
    Config {
        servers: names
            .iter()
            .map(|name| ServerEntry {
                name: name.to_string(),
                config: ServerConfig { command: "run".to_string(), args: vec![], env: vec![] },
            })
            .collect(),
        log_level: "info".to_string(),
        log_file: None,
    }
}

fn bring_up(name: &str, discovery_result: &str) -> BackendStart {
    let (startup, handshake) = Startup::begin(name);
    let reply = format!("{{\"jsonrpc\":\"2.0\",\"id\":{},\"result\":{{}}}}", handshake.id);
    let (startup, discovery) = match startup.on_line(&reply) {
        Progress::Discovering { startup, request } => (startup, request),
        other => panic!("unexpected: {:?}", other),
    };
    let reply = format!("{{\"jsonrpc\":\"2.0\",\"id\":{},\"result\":{}}}", discovery.id, discovery_result);
    match startup.on_line(&reply) {
        Progress::Finished(start) => start,
        other => panic!("unexpected: {:?}", other),
    }
}

fn files_gateway() -> MCPAggregator {
    let mut aggregator = MCPAggregator::new(config(&["files"]));
    let start = bring_up(
        "files",
        "{\"tools\":[{\"name\":\"read-file\",\"description\":\"Reads a file\",\"schema\":{\"type\":\"object\"}}]}",
    );
    aggregator.initialize(vec![start]).unwrap();
    aggregator
}

fn written(reaction: Reaction) -> Json {
    match reaction {
        Reaction::Write { line } => {
            assert!(!line.contains('\n'));
            parse(&line).unwrap()
        }
        other => panic!("unexpected: {:?}", other),
    }
}

#[test]
fn a_call_goes_to_the_backend_and_its_result_comes_back() {
    let mut aggregator = files_gateway();
    let mut gateway = Gateway::new();

    let listed = written(gateway.handle_line(&mut aggregator, "{\"jsonrpc\":\"2.0\",\"id\":1,\"method\":\"tools/list\"}"));
    let tools = listed.get("result").unwrap().get("tools").unwrap().as_array().unwrap();
    assert_eq!(tools.len(), 2);
    assert_eq!(
        tools[0],
        parse("{\"name\":\"files_read_file\",\"description\":\"Reads a file\",\"schema\":{\"type\":\"object\"}}").unwrap()
    );
    assert_eq!(tools[1].get_str("name"), Some("sanitize_tool_name"));
    assert_eq!(listed.get("id"), Some(&Json::from_u64(1)));

    let call = "{\"jsonrpc\":\"2.0\",\"id\":\"call-7\",\"method\":\"tools/call\",\"params\":{\"name\":\"files_read_file\",\"arguments\":{\"path\":\"/tmp/a\"}}}";
    let (backend, request) = match gateway.handle_line(&mut aggregator, call) {
        Reaction::Forward { backend, request } => (backend, request),
        other => panic!("unexpected: {:?}", other),
    };
    assert_eq!(backend, "files");
    assert_eq!(
        parse(&request.line).unwrap(),
        parse(&format!(
            "{{\"jsonrpc\":\"2.0\",\"id\":{},\"method\":\"tools/call\",\"params\":{{\"name\":\"read-file\",\"arguments\":{{\"path\":\"/tmp/a\"}}}}}}",
            request.id
        ))
        .unwrap()
    );

    let reply = format!("{{\"jsonrpc\":\"2.0\",\"id\":{},\"result\":{{\"text\":\"hello\",\"bytes\":5}}}}", request.id);
    let answer = written(relay(aggregator.on_backend_line(&backend, &reply)));
    assert_eq!(
        answer,
        parse("{\"jsonrpc\":\"2.0\",\"id\":\"call-7\",\"result\":{\"content\":[{\"type\":\"json\",\"json\":{\"text\":\"hello\",\"bytes\":5}}]}}").unwrap()
    );
    assert_eq!(gateway.state(), GatewayState::Running);
}

#[test]
fn a_line_that_is_no_json_is_answered_and_the_next_line_is_taken() {
    let mut aggregator = files_gateway();
    let mut gateway = Gateway::new();
    let answer = written(gateway.handle_line(&mut aggregator, "this is not json"));
    assert_eq!(answer.get("id"), Some(&Json::Null));
    assert_eq!(answer.get("jsonrpc"), Some(&Json::text("2.0")));
    assert_eq!(answer.get("result"), None);
    let error = answer.get("error").unwrap();
    assert_eq!(error.get("code"), Some(&Json::from_i64(-32700)));
    assert!(error.get_str("message").unwrap().starts_with("Parse error: "));
    assert_eq!(gateway.state(), GatewayState::Running);

    let next = written(gateway.handle_line(&mut aggregator, "{\"id\":2,\"method\":\"$/initialize\"}"));
    assert_eq!(
        next,
        parse("{\"jsonrpc\":\"2.0\",\"id\":2,\"result\":{\"serverInfo\":{\"name\":\"combine-mcp-rust\",\"version\":\"0.1.0\"}}}").unwrap()
    );
}

#[test]
fn an_empty_line_and_a_document_without_method_are_parse_errors() {
    let mut aggregator = files_gateway();
    let mut gateway = Gateway::new();
    for line in ["", "\n", "{}", "[1,2]", "{\"id\":4}"] {
        let answer = written(gateway.handle_line(&mut aggregator, line));
        assert_eq!(answer.get("id"), Some(&Json::Null));
        assert_eq!(answer.get("error").unwrap().get("code"), Some(&Json::from_i64(-32700)));
    }
    let answer = written(gateway.handle_line(&mut aggregator, "{\"id\":4}"));
    assert_eq!(
        answer.get("error").unwrap().get_str("message"),
        Some("Parse error: the request names no method")
    );
}

#[test]
fn each_method_gets_its_answer() {
    let mut aggregator = files_gateway();
    let mut gateway = Gateway::new();
    assert_eq!(
        written(gateway.handle_line(&mut aggregator, "{\"id\":1,\"method\":\"$/exit\"}")),
        parse("{\"jsonrpc\":\"2.0\",\"id\":1,\"result\":null}").unwrap()
    );
    assert_eq!(
        written(gateway.handle_line(&mut aggregator, "{\"method\":\"$/initialize\"}")).get("id"),
        Some(&Json::Null)
    );
    assert_eq!(
        written(gateway.handle_line(&mut aggregator, "{\"id\":2,\"method\":\"no/such\"}")),
        parse("{\"jsonrpc\":\"2.0\",\"id\":2,\"error\":{\"code\":-32601,\"message\":\"Method not found\"}}").unwrap()
    );
    assert_eq!(
        written(gateway.handle_line(&mut aggregator, "{\"id\":3,\"method\":\"tools/call\"}")),
        parse("{\"jsonrpc\":\"2.0\",\"id\":3,\"error\":{\"code\":-32602,\"message\":\"Invalid params: params are required for tools/call\"}}").unwrap()
    );
    assert_eq!(
        written(gateway.handle_line(&mut aggregator, "{\"id\":4,\"method\":\"tools/call\",\"params\":{\"arguments\":{}}}")),
        parse("{\"jsonrpc\":\"2.0\",\"id\":4,\"error\":{\"code\":-32602,\"message\":\"Invalid params: missing 'name' field\"}}").unwrap()
    );
    assert_eq!(
        written(gateway.handle_line(&mut aggregator, "{\"id\":5,\"method\":\"tools/call\",\"params\":{\"name\":\"nonexistent\"}}")),
        parse("{\"jsonrpc\":\"2.0\",\"id\":5,\"error\":{\"code\":-32603,\"message\":\"Tool call failed: Tool Not Found: nonexistent\"}}").unwrap()
    );
    assert_eq!(
        written(gateway.handle_line(&mut aggregator, "{\"id\":6,\"method\":\"tools/call\",\"params\":{\"name\":7}}")),
        parse("{\"jsonrpc\":\"2.0\",\"id\":6,\"error\":{\"code\":-32602,\"message\":\"Invalid params: missing 'name' field\"}}").unwrap()
    );
    assert_eq!(gateway.state(), GatewayState::Running);
}

#[test]
fn the_gateways_own_tool_is_called_without_a_backend() {
    let mut aggregator = MCPAggregator::new(config(&[]));
    let mut gateway = Gateway::new();
    let line = "{\"id\":1,\"method\":\"tools/call\",\"params\":{\"name\":\"sanitize_tool_name\",\"arguments\":{\"name\":\"create-issue-v2\"}}}";
    assert_eq!(
        written(gateway.handle_line(&mut aggregator, line)),
        parse("{\"jsonrpc\":\"2.0\",\"id\":1,\"result\":{\"content\":[{\"type\":\"text\",\"text\":\"create_issue_v2\"}]}}").unwrap()
    );
    let missing = "{\"id\":2,\"method\":\"tools/call\",\"params\":{\"name\":\"sanitize_tool_name\"}}";
    assert_eq!(
        written(gateway.handle_line(&mut aggregator, missing)),
        parse("{\"jsonrpc\":\"2.0\",\"id\":2,\"error\":{\"code\":-32603,\"message\":\"Tool call failed: Missing required 'name' parameter for sanitize_tool_name\"}}").unwrap()
    );
}

#[test]
fn the_request_to_shut_down_is_answered_and_ends_the_taking_of_requests() {
    let mut aggregator = files_gateway();
    let mut gateway = Gateway::new();
    assert_eq!(
        written(gateway.handle_line(&mut aggregator, "{\"id\":1,\"method\":\"$/shutdown\"}")),
        parse("{\"jsonrpc\":\"2.0\",\"id\":1,\"result\":null}").unwrap()
    );
    assert_eq!(gateway.state(), GatewayState::ShuttingDown);
    assert_eq!(gateway.handle_line(&mut aggregator, "{\"id\":2,\"method\":\"tools/list\"}"), Reaction::Ignored);
    assert_eq!(gateway.handle_line(&mut aggregator, "garbage"), Reaction::Ignored);
    gateway.on_end_of_input();
    assert_eq!(gateway.state(), GatewayState::ShuttingDown);
    gateway.stop();
    assert_eq!(gateway.state(), GatewayState::Stopped);
    gateway.on_interrupt();
    assert_eq!(gateway.state(), GatewayState::Stopped);
    assert_eq!(gateway.handle_line(&mut aggregator, "{\"id\":3,\"method\":\"$/initialize\"}"), Reaction::Ignored);
}

#[test]
fn the_end_of_input_and_an_interrupt_shut_a_running_gateway_down() {
    let mut gateway = Gateway::new();
    assert_eq!(gateway.state(), GatewayState::Running);
    gateway.on_end_of_input();
    assert_eq!(gateway.state(), GatewayState::ShuttingDown);
    let mut other = Gateway::new();
    other.on_interrupt();
    assert_eq!(other.state(), GatewayState::ShuttingDown);
}

#[test]
fn run_takes_the_lines_in_their_order() {
    let mut aggregator = files_gateway();
    let lines = vec![
        "nonsense".to_string(),
        "{\"id\":1,\"method\":\"tools/call\",\"params\":{\"name\":\"files_read_file\"}}".to_string(),
        "{\"id\":2,\"method\":\"$/shutdown\"}".to_string(),
        "{\"id\":3,\"method\":\"tools/list\"}".to_string(),
    ];
    let reactions = run(&mut aggregator, &lines);
    assert_eq!(reactions.len(), 4);
    assert!(matches!(&reactions[0], Reaction::Write { line } if line.contains("-32700")));
    assert!(matches!(&reactions[1], Reaction::Forward { backend, .. } if backend == "files"));
    assert!(matches!(&reactions[2], Reaction::Write { line } if line == "{\"id\":2,\"jsonrpc\":\"2.0\",\"result\":null}"));
    assert_eq!(reactions[3], Reaction::Ignored);
    assert_eq!(run(&mut aggregator, &vec![]), vec![]);
}

#[test]
fn only_the_callers_of_tools_get_an_answer() {
    let handshake = Inbound::Resolved {
        call: PendingCall { id: 1, kind: CallKind::Handshake, caller: Json::Null },
        outcome: Ok(Json::Null),
    };
    assert_eq!(relay(handshake), Reaction::Ignored);
    assert_eq!(relay(Inbound::Malformed), Reaction::Ignored);
    assert_eq!(relay(Inbound::Unmatched), Reaction::Ignored);
    let failed = Inbound::Resolved {
        call: PendingCall { id: 4, kind: CallKind::ToolCall, caller: Json::from_u64(11) },
        outcome: Err(parse("{\"code\":1,\"message\":\"boom\"}").unwrap()),
    };
    assert_eq!(
        written(relay(failed)),
        parse("{\"jsonrpc\":\"2.0\",\"id\":11,\"result\":{\"content\":[{\"type\":\"text\",\"text\":\"boom\"}],\"is_error\":true,\"meta\":{\"code\":1,\"message\":\"boom\"}}}").unwrap()
    );
}

#[test]
fn a_call_that_is_given_up_fails_for_its_caller() {
    let call = PendingCall { id: 4, kind: CallKind::ToolCall, caller: Json::from_u64(11) };
    assert_eq!(
        written(give_up(call, &AppError::Timeout("files".to_string()))),
        parse("{\"jsonrpc\":\"2.0\",\"id\":11,\"error\":{\"code\":-32603,\"message\":\"Tool call failed: Timeout: files\"}}").unwrap()
    );
    let gone = PendingCall { id: 5, kind: CallKind::ToolCall, caller: Json::Null };
    assert_eq!(
        written(give_up(gone, &AppError::BackendUnavailable("files".to_string()))),
        parse("{\"jsonrpc\":\"2.0\",\"id\":null,\"error\":{\"code\":-32603,\"message\":\"Tool call failed: Backend Unavailable: files\"}}").unwrap()
    );
    let discovery = PendingCall { id: 2, kind: CallKind::Discovery, caller: Json::Null };
    assert_eq!(give_up(discovery, &AppError::Timeout("files".to_string())), Reaction::Ignored);
}

#[test]
fn requests_can_be_handled_without_the_gateway() {
    let mut aggregator = files_gateway();
    let request = JsonRpcRequest { method: "tools/list".to_string(), id: Some(Json::from_u64(1)), params: None };
    match process_request(&request, &mut aggregator) {
        Dispatch::Respond(response) => {
            assert_eq!(response, handle_list_tools(Json::from_u64(1), &aggregator));
            assert!(response.error.is_none());
        }
        other => panic!("unexpected: {:?}", other),
    }
    let params = parse("{\"name\":\"files_read_file\",\"arguments\":null}").unwrap();
    match handle_call_tool(Json::from_u64(2), &params, &mut aggregator) {
        Dispatch::Forward { backend, request } => {
            assert_eq!(backend, "files");
            assert!(request.line.contains("\"arguments\":null"));
        }
        other => panic!("unexpected: {:?}", other),
    }
    let unknown = JsonRpcRequest { method: "x".to_string(), id: None, params: None };
    assert_eq!(
        process_request(&unknown, &mut aggregator),
        Dispatch::Respond(JsonRpcResponse::method_not_found(Json::Null))
    );
}
