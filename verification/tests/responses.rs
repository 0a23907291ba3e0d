use combine_mcp::error::AppError;
use combine_mcp::json::{parse, Json};
use combine_mcp::server::{JsonRpcError, JsonRpcRequest, JsonRpcResponse};
use combine_mcp::server::{INTERNAL_ERROR, INVALID_PARAMS, METHOD_NOT_FOUND, PARSE_ERROR};

#[test]
fn test_json_rpc_response_success() {
    let id = Json::from_u64(1);
    let result = Json::single("value", Json::text("test"));
    let response = JsonRpcResponse::success(id.duplicate(), result.duplicate());

    assert_eq!(response.jsonrpc, "2.0");
    assert_eq!(response.id, id);
    assert_eq!(response.result, Some(result));
    assert!(response.error.is_none());
}

#[test]
fn test_json_rpc_response_error() {
    let id = Json::from_u64(1);
    let code = -32600;
    let message = "Invalid Request".to_string();
    let response = JsonRpcResponse::error(id.duplicate(), code, message.clone(), None);

    assert_eq!(response.jsonrpc, "2.0");
    assert_eq!(response.id, id);
    assert!(response.result.is_none());
    assert!(response.error.is_some());

    let error = response.error.unwrap();
    assert_eq!(error.code, code);
    assert_eq!(error.message, message);
    assert!(error.data.is_none());
}

#[test]
fn test_json_rpc_method_not_found() {
    let id = Json::from_u64(1);
    let response = JsonRpcResponse::method_not_found(id.duplicate());

    assert_eq!(response.jsonrpc, "2.0");
    assert_eq!(response.id, id);
    assert!(response.result.is_none());
    assert!(response.error.is_some());

    let error = response.error.unwrap();
    assert_eq!(error.code, -32601);
    assert_eq!(error.message, "Method not found");
    assert!(error.data.is_none());
}

#[test]
fn test_json_rpc_internal_error() {
    let id = Json::from_u64(1);
    let message = "Server error".to_string();
    let response = JsonRpcResponse::internal_error(id.duplicate(), message.clone());

    assert_eq!(response.jsonrpc, "2.0");
    assert_eq!(response.id, id);
    assert!(response.result.is_none());
    assert!(response.error.is_some());

    let error = response.error.unwrap();
    assert_eq!(error.code, -32603);
    assert_eq!(error.message, message);
    assert!(error.data.is_none());
}

#[test]
fn the_error_codes_are_those_of_json_rpc() {
    assert_eq!(PARSE_ERROR, -32700);
    assert_eq!(METHOD_NOT_FOUND, -32601);
    assert_eq!(INVALID_PARAMS, -32602);
    assert_eq!(INTERNAL_ERROR, -32603);
}

#[test]
fn the_other_responses_carry_their_codes() {
    let invalid = JsonRpcResponse::invalid_params(Json::from_u64(2), "bad".to_string());
    assert_eq!(invalid.error.as_ref().unwrap().code, -32602);
    assert_eq!(invalid.error.as_ref().unwrap().message, "bad");
    assert_eq!(invalid.id, Json::from_u64(2));

    let parse_error = JsonRpcResponse::parse_error("expected value");
    assert_eq!(parse_error.id, Json::Null);
    assert_eq!(parse_error.error.as_ref().unwrap().code, -32700);
    assert_eq!(parse_error.error.as_ref().unwrap().message, "Parse error: expected value");

    let failed = JsonRpcResponse::call_failed(Json::text("q"), &AppError::ToolNotFound("t".to_string()));
    assert_eq!(failed.id, Json::text("q"));
    assert_eq!(failed.error.as_ref().unwrap().code, -32603);
    assert_eq!(failed.error.as_ref().unwrap().message, "Tool call failed: Tool Not Found: t");
    assert!(failed.result.is_none());
}

#[test]
fn a_success_is_written_with_its_result_only() {
    let response = JsonRpcResponse::success(Json::from_u64(1), Json::single("value", Json::text("test")));
    assert_eq!(response.to_line(), "{\"id\":1,\"jsonrpc\":\"2.0\",\"result\":{\"value\":\"test\"}}");
    let null = JsonRpcResponse::success(Json::Null, Json::Null);
    assert_eq!(null.to_line(), "{\"id\":null,\"jsonrpc\":\"2.0\",\"result\":null}");
}

#[test]
fn an_error_is_written_with_its_error_only() {
    let response = JsonRpcResponse::method_not_found(Json::text("abc"));
    assert_eq!(
        response.to_line(),
        "{\"error\":{\"code\":-32601,\"message\":\"Method not found\"},\"id\":\"abc\",\"jsonrpc\":\"2.0\"}"
    );
    let with_data = JsonRpcResponse::error(Json::from_u64(3), -32000, "m".to_string(), Some(Json::Bool(true)));
    assert_eq!(
        with_data.to_line(),
        "{\"error\":{\"code\":-32000,\"data\":true,\"message\":\"m\"},\"id\":3,\"jsonrpc\":\"2.0\"}"
    );
    let error = JsonRpcError { code: 5, message: "x".to_string(), data: None };
    assert_eq!(parse(&combine_mcp::json::render(&error.to_json())).unwrap(), parse("{\"code\":5,\"message\":\"x\"}").unwrap());
}

#[test]
fn a_request_is_read_from_an_object_with_a_method() {
    let doc = parse("{\"jsonrpc\":\"2.0\",\"id\":7,\"method\":\"tools/list\",\"params\":{\"a\":1}}").unwrap();
    let request = JsonRpcRequest::from_json(&doc).unwrap();
    assert_eq!(request.method, "tools/list");
    assert_eq!(request.id, Some(Json::from_u64(7)));
    assert_eq!(request.params, Some(Json::single("a", Json::from_u64(1))));

    let bare = JsonRpcRequest::from_json(&parse("{\"method\":\"$/exit\"}").unwrap()).unwrap();
    assert_eq!(bare.method, "$/exit");
    assert_eq!(bare.id, None);
    assert_eq!(bare.params, None);

    let nulls = JsonRpcRequest::from_json(&parse("{\"method\":\"m\",\"id\":null,\"params\":null}").unwrap()).unwrap();
    assert_eq!(nulls.id, None);
    assert_eq!(nulls.params, None);
}

#[test]
fn what_has_no_method_is_no_request() {
    for text in ["{}", "{\"id\":1}", "{\"method\":5}", "[\"m\",1]", "\"m\"", "null", "3"] {
        assert_eq!(JsonRpcRequest::from_json(&parse(text).unwrap()), None);
    }
}
