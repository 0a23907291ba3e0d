use combine_mcp::aggregator::{translate_result, BackendStart, CallToolParams, CallToolRequest};
use combine_mcp::aggregator::{CallToolResult, Drained, MCPAggregator, Tool, ToolCall, ToolResponseContent};
use combine_mcp::config::{Config, ServerConfig, ServerEntry};
use combine_mcp::error::AppError;
use combine_mcp::json::{parse, render, Json};
use combine_mcp::session::{CallKind, ChildSession, Inbound, PendingCall, SessionState};
use combine_mcp::wire::{result_to_json, tool_to_json, tools_from_json, tools_to_json};

fn sorted(doc: &Json) -> Json {
    parse(&render(doc)).unwrap()
}

fn config(names: &[&str]) -> Config {
    Config {
        servers: names
            .iter()
            .map(|name| ServerEntry {
                name: name.to_string(),
                config: ServerConfig { command: "run".to_string(), args: vec![], env: vec![] },
            })
            .collect(),
        log_level: "info".to_string(),
        log_file: None,
    }
}

fn ready(name: &str) -> ChildSession {
    let mut session = ChildSession::new(name);
    let out = session.begin_handshake().unwrap();
    let reply = format!("{{\"id\":{},\"result\":{{}}}}", out.id);
    assert!(matches!(session.on_line(&reply), Inbound::Resolved { .. }));
    session
}

fn tool(name: &str) -> Tool {
    Tool { name: name.to_string(), description: format!("does {}", name), input_schema: Json::empty_object() }
}

fn started(name: &str, tools: &[&str]) -> BackendStart {
    BackendStart::Started { session: ready(name), tools: tools.iter().map(|t| tool(t)).collect() }
}

fn failed(name: &str) -> BackendStart {
    BackendStart::Failed { name: name.to_string(), error: AppError::ChildProcess("no such file".to_string()) }
}

fn call(name: &str, arguments: Option<Json>) -> CallToolRequest {
    CallToolRequest { params: CallToolParams { name: name.to_string(), arguments } }
}

fn names(aggregator: &MCPAggregator) -> Vec<String> {
    aggregator.get_tools().unwrap().into_iter().map(|t| t.name).collect()
}

#[test]
fn a_new_registry_is_empty() {
    let aggregator = MCPAggregator::new(config(&["a"]));
    assert_eq!(aggregator.session_count(), 0);
    assert_eq!(aggregator.tool_count(), 0);
    assert_eq!(aggregator.config(), &config(&["a"]));
    assert_eq!(names(&aggregator), vec!["sanitize_tool_name"]);
}

#[test]
fn the_gateways_own_tool_is_listed_last() {
    let mut aggregator = MCPAggregator::new(config(&["a"]));
    aggregator.initialize(vec![started("a", &["x"])]).unwrap();
    let tools = aggregator.get_tools().unwrap();
    assert_eq!(tools.len(), 2);
    assert_eq!(tools[0], Tool { name: "a_x".to_string(), description: "does x".to_string(), input_schema: Json::empty_object() });
    assert_eq!(tools[1].name, "sanitize_tool_name");
    assert_eq!(tools[1].description, "Sanitizes a tool name by replacing dashes with underscores");
    assert_eq!(
        sorted(&tools[1].input_schema),
        parse("{\"type\":\"object\",\"properties\":{\"name\":{\"type\":\"string\",\"description\":\"The tool name to sanitize\"}},\"required\":[\"name\"]}").unwrap()
    );
}

#[test]
fn two_backends_with_the_same_tool_get_two_entries() {
    let mut aggregator = MCPAggregator::new(config(&["A", "B"]));
    aggregator.initialize(vec![started("A", &["x"]), started("B", &["x"])]).unwrap();
    assert!(aggregator.has_tool("A_x"));
    assert!(aggregator.has_tool("B_x"));
    assert_eq!(aggregator.tool_count(), 2);
    assert_eq!(names(&aggregator), vec!["A_x", "B_x", "sanitize_tool_name"]);
}

#[test]
fn a_call_reaches_the_backend_that_owns_the_tool() {
    let mut aggregator = MCPAggregator::new(config(&["A", "B"]));
    aggregator.initialize(vec![started("A", &["x"]), started("B", &["x"])]).unwrap();
    let arguments = parse("{\"k\":[1,2,{\"deep\":null}]}").unwrap();
    let routed = aggregator.call_tool(&call("A_x", Some(arguments)), Json::from_u64(7)).unwrap();
    match routed {
        ToolCall::Forwarded { backend, request } => {
            assert_eq!(backend, "A");
            assert_eq!(request.id, 2);
            assert_eq!(
                request.line,
                "{\"id\":2,\"jsonrpc\":\"2.0\",\"method\":\"tools/call\",\"params\":{\"arguments\":{\"k\":[1,2,{\"deep\":null}]},\"name\":\"x\"}}"
            );
        }
        other => panic!("unexpected: {:?}", other),
    }
    let to_b = aggregator.call_tool(&call("B_x", None), Json::Null).unwrap();
    match to_b {
        ToolCall::Forwarded { backend, request } => {
            assert_eq!(backend, "B");
            assert_eq!(
                request.line,
                "{\"id\":2,\"jsonrpc\":\"2.0\",\"method\":\"tools/call\",\"params\":{\"arguments\":{},\"name\":\"x\"}}"
            );
        }
        other => panic!("unexpected: {:?}", other),
    }
}

#[test]
fn the_tools_own_name_is_sent_to_the_backend() {
    let mut aggregator = MCPAggregator::new(config(&["files"]));
    aggregator.initialize(vec![started("files", &["read-file"])]).unwrap();
    assert!(aggregator.has_tool("files_read_file"));
    assert!(!aggregator.has_tool("files_read-file"));
    match aggregator.call_tool(&call("files_read_file", None), Json::Null).unwrap() {
        ToolCall::Forwarded { request, .. } => assert!(request.line.contains("\"name\":\"read-file\"")),
        other => panic!("unexpected: {:?}", other),
    }
}

#[test]
fn an_unknown_tool_is_not_found_and_no_backend_hears_of_it() {
    let mut aggregator = MCPAggregator::new(config(&["A"]));
    aggregator.initialize(vec![started("A", &["x"])]).unwrap();
    let result = aggregator.call_tool(&call("nonexistent", Some(Json::empty_object())), Json::Null);
    assert_eq!(result, Err(AppError::ToolNotFound("nonexistent".to_string())));
    assert_eq!(aggregator.on_backend_exit("A"), vec![]);
    let mut empty = MCPAggregator::new(config(&[]));
    assert_eq!(empty.call_tool(&call("A_x", None), Json::Null), Err(AppError::ToolNotFound("A_x".to_string())));
    assert_eq!(empty.call_tool(&call("", None), Json::Null), Err(AppError::ToolNotFound("".to_string())));
}

#[test]
fn the_gateways_own_tool_answers_at_once() {
    let mut aggregator = MCPAggregator::new(config(&[]));
    let done = aggregator
        .call_tool(&call("sanitize_tool_name", Some(Json::single("name", Json::text("get-user")))), Json::Null)
        .unwrap();
    assert_eq!(
        done,
        ToolCall::Done(CallToolResult {
            content: vec![ToolResponseContent::Text { text: "get_user".to_string() }],
            is_error: None,
            meta: None,
        })
    );
    let missing = Err(AppError::Other("Missing required 'name' parameter for sanitize_tool_name".to_string()));
    assert_eq!(aggregator.call_tool(&call("sanitize_tool_name", None), Json::Null), missing);
    assert_eq!(aggregator.call_tool(&call("sanitize_tool_name", Some(Json::empty_object())), Json::Null), missing);
    assert_eq!(
        aggregator.call_tool(&call("sanitize_tool_name", Some(Json::single("name", Json::from_u64(1)))), Json::Null),
        missing
    );
}

#[test]
fn one_failed_backend_does_not_hold_up_the_others() {
    let mut aggregator = MCPAggregator::new(config(&["a", "b", "c"]));
    let result = aggregator.initialize(vec![started("a", &["t"]), failed("b"), started("c", &["t", "u"])]);
    assert_eq!(result, Ok(()));
    assert_eq!(aggregator.session_count(), 2);
    assert_eq!(names(&aggregator), vec!["a_t", "c_t", "c_u", "sanitize_tool_name"]);
    assert_eq!(aggregator.session_state("a"), Some(SessionState::Ready));
    assert_eq!(aggregator.session_state("b"), None);
    assert_eq!(aggregator.session_state("c"), Some(SessionState::Ready));
}

#[test]
fn no_backend_at_all_is_a_failure() {
    let mut aggregator = MCPAggregator::new(config(&["a", "b", "c"]));
    let result = aggregator.initialize(vec![failed("a"), failed("b"), failed("c")]);
    assert_eq!(result, Err(AppError::Initialization("No servers were successfully initialized".to_string())));
    assert_eq!(aggregator.session_count(), 0);
    assert_eq!(names(&aggregator), vec!["sanitize_tool_name"]);

    let mut none = MCPAggregator::new(config(&[]));
    assert!(none.initialize(vec![]).is_err());
}

#[test]
fn a_backend_of_the_same_name_gives_way() {
    let mut aggregator = MCPAggregator::new(config(&["a"]));
    aggregator.initialize(vec![started("a", &["old", "both"]), started("b", &["x"])]).unwrap();
    aggregator.register(ready("a"), vec![tool("both"), tool("new")]);
    assert_eq!(aggregator.session_count(), 2);
    assert_eq!(names(&aggregator), vec!["b_x", "a_both", "a_new", "sanitize_tool_name"]);
}

#[test]
fn the_later_of_two_tools_under_one_name_is_listed() {
    let mut aggregator = MCPAggregator::new(config(&["a"]));
    aggregator.initialize(vec![started("a", &["b-c", "other", "b_c"])]).unwrap();
    assert_eq!(names(&aggregator), vec!["a_b_c", "a_other", "sanitize_tool_name"]);
    match aggregator.call_tool(&call("a_b_c", None), Json::Null).unwrap() {
        ToolCall::Forwarded { request, .. } => assert!(request.line.contains("\"name\":\"b_c\"")),
        other => panic!("unexpected: {:?}", other),
    }
}

#[test]
fn replies_from_a_backend_resolve_its_calls() {
    let mut aggregator = MCPAggregator::new(config(&["A", "B"]));
    aggregator.initialize(vec![started("A", &["x"]), started("B", &["x"])]).unwrap();
    let a = match aggregator.call_tool(&call("A_x", None), Json::text("from a")).unwrap() {
        ToolCall::Forwarded { request, .. } => request.id,
        other => panic!("unexpected: {:?}", other),
    };
    let b = match aggregator.call_tool(&call("B_x", None), Json::text("from b")).unwrap() {
        ToolCall::Forwarded { request, .. } => request.id,
        other => panic!("unexpected: {:?}", other),
    };
    assert_eq!(a, b);
    let reply = format!("{{\"id\":{},\"result\":\"done\"}}", b);
    assert_eq!(aggregator.on_backend_line("nobody", &reply), Inbound::Unmatched);
    assert_eq!(
        aggregator.on_backend_line("B", &reply),
        Inbound::Resolved {
            call: PendingCall { id: b, kind: CallKind::ToolCall, caller: Json::text("from b") },
            outcome: Ok(Json::text("done")),
        }
    );
    assert_eq!(aggregator.on_backend_line("B", &reply), Inbound::Unmatched);
    assert_eq!(aggregator.on_backend_line("A", "garbage"), Inbound::Malformed);
    assert_eq!(
        aggregator.on_backend_message("A", Some(parse(&reply).unwrap())),
        Inbound::Resolved {
            call: PendingCall { id: a, kind: CallKind::ToolCall, caller: Json::text("from a") },
            outcome: Ok(Json::text("done")),
        }
    );
}

#[test]
fn a_deadline_at_the_registry_gives_the_call_up() {
    let mut aggregator = MCPAggregator::new(config(&["A"]));
    aggregator.initialize(vec![started("A", &["x"])]).unwrap();
    let id = match aggregator.call_tool(&call("A_x", None), Json::from_u64(5)).unwrap() {
        ToolCall::Forwarded { request, .. } => request.id,
        other => panic!("unexpected: {:?}", other),
    };
    assert_eq!(aggregator.on_backend_timeout("B", id), None);
    assert_eq!(aggregator.on_backend_timeout("A", id + 1), None);
    assert_eq!(
        aggregator.on_backend_timeout("A", id),
        Some(PendingCall { id, kind: CallKind::ToolCall, caller: Json::from_u64(5) })
    );
    assert_eq!(aggregator.session_state("A"), Some(SessionState::Degraded));
    assert_eq!(aggregator.on_backend_line("A", &format!("{{\"id\":{},\"result\":1}}", id)), Inbound::Unmatched);
    assert!(aggregator.call_tool(&call("A_x", None), Json::Null).is_ok());
}

#[test]
fn a_backend_that_went_away_leaves_with_its_tools() {
    let mut aggregator = MCPAggregator::new(config(&["A", "B"]));
    aggregator.initialize(vec![started("A", &["x", "y"]), started("B", &["x"])]).unwrap();
    aggregator.call_tool(&call("A_x", None), Json::from_u64(1)).unwrap();
    aggregator.call_tool(&call("A_y", None), Json::from_u64(2)).unwrap();
    let failed = aggregator.on_backend_exit("A");
    assert_eq!(
        failed,
        vec![
            PendingCall { id: 2, kind: CallKind::ToolCall, caller: Json::from_u64(1) },
            PendingCall { id: 3, kind: CallKind::ToolCall, caller: Json::from_u64(2) },
        ]
    );
    assert_eq!(names(&aggregator), vec!["B_x", "sanitize_tool_name"]);
    assert_eq!(aggregator.session_state("A"), None);
    assert_eq!(aggregator.call_tool(&call("A_x", None), Json::Null), Err(AppError::ToolNotFound("A_x".to_string())));
    assert_eq!(aggregator.on_backend_exit("A"), vec![]);
}

#[test]
fn close_empties_the_registry_and_fails_what_was_outstanding() {
    let mut aggregator = MCPAggregator::new(config(&["A", "B"]));
    aggregator.initialize(vec![started("A", &["x"]), started("B", &["x"])]).unwrap();
    aggregator.call_tool(&call("B_x", None), Json::text("waiting")).unwrap();
    let drained = aggregator.close();
    assert_eq!(
        drained,
        vec![
            Drained { backend: "A".to_string(), failed: vec![] },
            Drained {
                backend: "B".to_string(),
                failed: vec![PendingCall { id: 2, kind: CallKind::ToolCall, caller: Json::text("waiting") }],
            },
        ]
    );
    assert_eq!(aggregator.session_count(), 0);
    assert_eq!(aggregator.tool_count(), 0);
    assert_eq!(names(&aggregator), vec!["sanitize_tool_name"]);
    assert_eq!(aggregator.close(), vec![]);
    assert_eq!(aggregator.call_tool(&call("B_x", None), Json::Null), Err(AppError::ToolNotFound("B_x".to_string())));
}

#[test]
fn a_backend_that_takes_no_calls_is_unavailable() {
    let mut aggregator = MCPAggregator::new(config(&["A"]));
    aggregator.register(ChildSession::new("A"), vec![tool("x")]);
    assert_eq!(
        aggregator.call_tool(&call("A_x", None), Json::Null),
        Err(AppError::BackendUnavailable("A".to_string()))
    );
}

#[test]
fn a_backends_answer_becomes_the_callers_result() {
    let data = parse("{\"rows\":[1,2]}").unwrap();
    assert_eq!(
        translate_result(Ok(data.duplicate())),
        CallToolResult { content: vec![ToolResponseContent::Json { json: data }], is_error: None, meta: None }
    );
    assert_eq!(
        translate_result(Ok(Json::text("plain"))),
        CallToolResult {
            content: vec![ToolResponseContent::Text { text: "plain".to_string() }],
            is_error: None,
            meta: None,
        }
    );
    let error = parse("{\"code\":-32000,\"message\":\"disk full\"}").unwrap();
    assert_eq!(
        translate_result(Err(error.duplicate())),
        CallToolResult {
            content: vec![ToolResponseContent::Text { text: "disk full".to_string() }],
            is_error: Some(true),
            meta: Some(error),
        }
    );
    assert_eq!(
        translate_result(Err(Json::from_u64(3))),
        CallToolResult {
            content: vec![ToolResponseContent::Json { json: Json::from_u64(3) }],
            is_error: Some(true),
            meta: Some(Json::from_u64(3)),
        }
    );
}

#[test]
fn tools_and_results_are_written_as_json() {
    let t = Tool { name: "n".to_string(), description: "d".to_string(), input_schema: Json::single("type", Json::text("object")) };
    assert_eq!(sorted(&tool_to_json(&t)), parse("{\"name\":\"n\",\"description\":\"d\",\"schema\":{\"type\":\"object\"}}").unwrap());
    assert_eq!(sorted(&tools_to_json(&vec![])), parse("{\"tools\":[]}").unwrap());
    let result = CallToolResult {
        content: vec![
            ToolResponseContent::Text { text: "hi".to_string() },
            ToolResponseContent::Json { json: Json::Array(vec![]) },
        ],
        is_error: Some(false),
        meta: Some(Json::Null),
    };
    assert_eq!(
        sorted(&result_to_json(&result)),
        parse("{\"content\":[{\"type\":\"text\",\"text\":\"hi\"},{\"type\":\"json\",\"json\":[]}],\"is_error\":false,\"meta\":null}").unwrap()
    );
    let bare = CallToolResult { content: vec![], is_error: None, meta: None };
    assert_eq!(sorted(&result_to_json(&bare)), parse("{\"content\":[]}").unwrap());
}

#[test]
fn the_tools_of_a_backend_are_read_from_its_answer() {
    let answer = parse("{\"tools\":[{\"name\":\"read-file\",\"description\":\"Reads\",\"schema\":{\"type\":\"object\"}},{\"name\":\"bare\"}]}").unwrap();
    assert_eq!(
        tools_from_json(&answer),
        Some(vec![
            Tool { name: "read-file".to_string(), description: "Reads".to_string(), input_schema: Json::single("type", Json::text("object")) },
            Tool { name: "bare".to_string(), description: String::new(), input_schema: Json::Null },
        ])
    );
    assert_eq!(tools_from_json(&parse("{\"tools\":[]}").unwrap()), Some(vec![]));
    assert_eq!(tools_from_json(&parse("{}").unwrap()), None);
    assert_eq!(tools_from_json(&parse("{\"tools\":{}}").unwrap()), None);
    assert_eq!(tools_from_json(&parse("{\"tools\":[{\"name\":\"a\"},{\"description\":\"nameless\"}]}").unwrap()), None);
    assert_eq!(tools_from_json(&parse("{\"tools\":[{\"name\":5}]}").unwrap()), None);
    assert_eq!(tools_from_json(&parse("[]").unwrap()), None);
    let listed = vec![Tool { name: "a".to_string(), description: "b".to_string(), input_schema: Json::Bool(true) }];
    assert_eq!(tools_from_json(&tools_to_json(&listed)), Some(listed));
}

#[test]
fn a_later_backend_can_take_a_prefixed_name_over() {
    let mut aggregator = MCPAggregator::new(config(&["a", "a_b"]));
    aggregator.initialize(vec![started("a", &["b_c", "x"]), started("a_b", &["c"])]).unwrap();
    assert_eq!(names(&aggregator), vec!["a_b_c", "a_x", "sanitize_tool_name"]);
    match aggregator.call_tool(&call("a_b_c", None), Json::Null).unwrap() {
        ToolCall::Forwarded { backend, request } => {
            assert_eq!(backend, "a_b");
            assert!(request.line.contains("\"name\":\"c\""));
        }
        other => panic!("unexpected: {:?}", other),
    }
}

#[test]
fn the_gateways_own_tool_wins_over_a_backends_tool_of_its_name() {
    let mut aggregator = MCPAggregator::new(config(&["sanitize"]));
    aggregator.initialize(vec![started("sanitize", &["tool-name"])]).unwrap();
    assert_eq!(names(&aggregator), vec!["sanitize_tool_name", "sanitize_tool_name"]);
    let done = aggregator
        .call_tool(&call("sanitize_tool_name", Some(Json::single("name", Json::text("a-b")))), Json::Null)
        .unwrap();
    assert!(matches!(done, ToolCall::Done(_)));
}
