//! The gateway's own protocol: requests and responses, the dispatch of a
//! request by its method, and the gateway's life from running to stopped.

use vstd::prelude::*;
use crate::aggregator::translate_result;
use crate::registry::{builtin_name, listing, lists, translated, AggregatorSpec, RoutingSpec};
use crate::aggregator::{CallToolParams, CallToolRequest, MCPAggregator, ToolCall};
use crate::error::AppError;
use crate::json::{maybe_view, outcome_view, parse, parsed_json, render, rendered_json};
use crate::json::single_line;
use crate::json::{Entry, Json, JsonTree, Member};
use crate::session::{CallKind, Inbound, InboundSpec, Outgoing, PendingCall, PendingSpec};
use crate::text::{joined, same_text, signed_decimal};
use crate::wire::{result_to_json, result_tree, tools_to_json, tools_tree};

verus! {

/// The code of a response to a text that is no request.
pub const PARSE_ERROR: i32 = -32700;

/// The code of a response to a request for a method that the gateway does
/// not have.
pub const METHOD_NOT_FOUND: i32 = -32601;

/// The code of a response to a request whose parameters miss what the
/// method needs.
pub const INVALID_PARAMS: i32 = -32602;

/// The code of a response to a request that failed in the gateway or in a
/// backend.
pub const INTERNAL_ERROR: i32 = -32603;

/// A request: the method, the id to answer under, and the parameters.
#[derive(Debug, PartialEq, Eq)]
pub struct JsonRpcRequest {
    pub method: String,
    pub id: Option<Json>,
    pub params: Option<Json>,
}

/// The error of a response.
#[derive(Debug, PartialEq, Eq)]
pub struct JsonRpcError {
    pub code: i32,
    pub message: String,
    pub data: Option<Json>,
}

/// A response: the id of the request it answers, and a result or an error.
#[derive(Debug, PartialEq, Eq)]
pub struct JsonRpcResponse {
    pub jsonrpc: String,
    pub id: Json,
    pub result: Option<Json>,
    pub error: Option<JsonRpcError>,
}

/// The content of a `JsonRpcRequest`.
pub struct RequestSpec {
    pub method: Seq<char>,
    pub id: Option<JsonTree>,
    pub params: Option<JsonTree>,
}

/// The content of a `JsonRpcError`.
pub struct ErrorSpec {
    pub code: i32,
    pub message: Seq<char>,
    pub data: Option<JsonTree>,
}

/// The content of a `JsonRpcResponse`.
pub struct ResponseSpec {
    pub jsonrpc: Seq<char>,
    pub id: JsonTree,
    pub result: Option<JsonTree>,
    pub error: Option<ErrorSpec>,
}

impl View for JsonRpcRequest {
    type V = RequestSpec;

    open spec fn view(&self) -> RequestSpec {
        RequestSpec { method: self.method@, id: maybe_view(self.id), params: maybe_view(self.params) }
    }
}

impl View for JsonRpcError {
    type V = ErrorSpec;

    open spec fn view(&self) -> ErrorSpec {
        ErrorSpec { code: self.code, message: self.message@, data: maybe_view(self.data) }
    }
}

impl View for JsonRpcResponse {
    type V = ResponseSpec;

    open spec fn view(&self) -> ResponseSpec {
        ResponseSpec {
            jsonrpc: self.jsonrpc@,
            id: self.id@,
            result: maybe_view(self.result),
            error: match self.error {
                Some(error) => Some(error@),
                None => None,
            },
        }
    }
}

/// The response that carries a result.
pub open spec fn succeeded(id: JsonTree, result: JsonTree) -> ResponseSpec {
    ResponseSpec { jsonrpc: "2.0"@, id, result: Some(result), error: None }
}

/// The response that carries an error.
pub open spec fn failed(
    id: JsonTree,
    code: i32,
    message: Seq<char>,
    data: Option<JsonTree>,
) -> ResponseSpec {
    ResponseSpec {
        jsonrpc: "2.0"@,
        id,
        result: None,
        error: Some(ErrorSpec { code, message, data }),
    }
}

/// The response to a text that is no request: a parse error under the id
/// `null`, with what was found wrong.
pub open spec fn parse_failure(complaint: Seq<char>) -> ResponseSpec {
    failed(JsonTree::Null, PARSE_ERROR, "Parse error: "@ + complaint, None)
}

/// The response to a call that failed.
pub open spec fn call_failure(id: JsonTree, description: Seq<char>) -> ResponseSpec {
    failed(id, INTERNAL_ERROR, "Tool call failed: "@ + description, None)
}

/// A member's value where the member is there and is not `null`.
pub open spec fn present(value: Option<JsonTree>) -> Option<JsonTree> {
    match value {
        Some(v) => if v == JsonTree::Null {
            None
        } else {
            Some(v)
        },
        None => None,
    }
}

/// The request that a document holds: an object with a string `method`,
/// and `id` and `params` where it has them. Anything else is no request.
pub open spec fn envelope(doc: JsonTree) -> Option<RequestSpec> {
    match doc.text_member("method"@) {
        Some(method) => Some(
            RequestSpec {
                method,
                id: present(doc.member("id"@)),
                params: present(doc.member("params"@)),
            },
        ),
        None => None,
    }
}

/// The member `data` of an error, where the error has one.
pub open spec fn data_entries(data: Option<JsonTree>) -> Seq<Entry> {
    match data {
        Some(value) => seq![Entry { key: "data"@, value }],
        None => Seq::empty(),
    }
}

/// An error as JSON: `code` and `message`, and `data` where it has one.
pub open spec fn error_tree(error: ErrorSpec) -> JsonTree {
    JsonTree::Object(
        seq![
            Entry { key: "code"@, value: JsonTree::Number(signed_decimal(error.code as int)) },
            Entry { key: "message"@, value: JsonTree::Text(error.message) },
        ] + data_entries(error.data),
    )
}

/// A response as JSON: `jsonrpc` and `id`, then `error` where the response
/// has one, and `result` where it has none (`null` for a missing result).
pub open spec fn response_tree(response: ResponseSpec) -> JsonTree {
    JsonTree::Object(
        seq![
            Entry { key: "jsonrpc"@, value: JsonTree::Text(response.jsonrpc) },
            Entry { key: "id"@, value: response.id },
        ] + match response.error {
            Some(error) => seq![Entry { key: "error"@, value: error_tree(error) }],
            None => seq![
                Entry {
                    key: "result"@,
                    value: match response.result {
                        Some(result) => result,
                        None => JsonTree::Null,
                    },
                },
            ],
        },
    )
}

/// The line that carries a response.
pub open spec fn response_line(response: ResponseSpec) -> Seq<char> {
    rendered_json(response_tree(response))
}

/// Who the gateway is: its name and its version, under `serverInfo`.
pub open spec fn server_info() -> JsonTree {
    JsonTree::Object(
        seq![
            Entry {
                key: "serverInfo"@,
                value: JsonTree::Object(
                    seq![
                        Entry { key: "name"@, value: JsonTree::Text("combine-mcp-rust"@) },
                        Entry { key: "version"@, value: JsonTree::Text("0.1.0"@) },
                    ],
                ),
            },
        ],
    )
}

impl JsonRpcRequest {
    /// Reads a request from a document.
    pub fn from_json(doc: &Json) -> (r: Option<JsonRpcRequest>)
        ensures
            match r {
                Some(request) => envelope(doc@) == Some(request@),
                None => envelope(doc@) is None,
            },
    {
        let method = match doc.get_str("method") {
            Some(method) => method.to_owned(),
            None => {
                return None;
            },
        };
        Some(
            JsonRpcRequest {
                method,
                id: member_if_present(doc, "id"),
                params: member_if_present(doc, "params"),
            },
        )
    }
}

fn member_if_present(doc: &Json, key: &str) -> (r: Option<Json>)
    ensures
        maybe_view(r) == present(doc@.member(key@)),
{
    match doc.get(key) {
        Some(value) => if value.is_null() {
            None
        } else {
            Some(value.duplicate())
        },
        None => None,
    }
}

impl JsonRpcError {
    /// Writes the error as JSON.
    pub fn to_json(&self) -> (doc: Json)
        ensures
            doc@ == error_tree(self@),
    {
        let mut members: Vec<Member> = Vec::new();
        members.push(Member::new("code", Json::from_i64(self.code as i64)));
        members.push(Member::new("message", Json::text(self.message.as_str())));
        match &self.data {
            Some(data) => {
                members.push(Member::new("data", data.duplicate()));
            },
            None => {},
        }
        let doc = Json::object(members);
        assert(doc@->Object_0 =~= error_tree(self@)->Object_0);
        doc
    }
}

impl JsonRpcResponse {
    /// The response that answers `id` with `result`.
    pub fn success(id: Json, result: Json) -> (response: JsonRpcResponse)
        ensures
            response@ == succeeded(id@, result@),
    {
        JsonRpcResponse { jsonrpc: "2.0".to_owned(), id, result: Some(result), error: None }
    }

    /// The response that answers `id` with an error.
    pub fn error(id: Json, code: i32, message: String, data: Option<Json>) -> (response:
        JsonRpcResponse)
        ensures
            response@ == failed(id@, code, message@, maybe_view(data)),
    {
        JsonRpcResponse {
            jsonrpc: "2.0".to_owned(),
            id,
            result: None,
            error: Some(JsonRpcError { code, message, data }),
        }
    }

    /// The response to a request for a method that the gateway does not
    /// have.
    pub fn method_not_found(id: Json) -> (response: JsonRpcResponse)
        ensures
            response@ == failed(id@, METHOD_NOT_FOUND, "Method not found"@, None),
    {
        JsonRpcResponse::error(id, METHOD_NOT_FOUND, "Method not found".to_owned(), None)
    }

    /// The response to a request that failed inside the gateway.
    pub fn internal_error(id: Json, message: String) -> (response: JsonRpcResponse)
        ensures
            response@ == failed(id@, INTERNAL_ERROR, message@, None),
    {
        JsonRpcResponse::error(id, INTERNAL_ERROR, message, None)
    }

    /// The response to a request whose parameters miss what the method
    /// needs.
    pub fn invalid_params(id: Json, message: String) -> (response: JsonRpcResponse)
        ensures
            response@ == failed(id@, INVALID_PARAMS, message@, None),
    {
        JsonRpcResponse::error(id, INVALID_PARAMS, message, None)
    }

    /// The response to a text that is no request.
    pub fn parse_error(complaint: &str) -> (response: JsonRpcResponse)
        ensures
            response@ == parse_failure(complaint@),
    {
        JsonRpcResponse::error(Json::Null, PARSE_ERROR, joined("Parse error: ", complaint), None)
    }

    /// The response to a call that failed.
    pub fn call_failed(id: Json, error: &AppError) -> (response: JsonRpcResponse)
        ensures
            response@ == call_failure(id@, error.description()),
    {
        let description = error.message();
        JsonRpcResponse::error(
            id,
            INTERNAL_ERROR,
            joined("Tool call failed: ", description.as_str()),
            None,
        )
    }

    /// Writes the response as JSON.
    pub fn to_json(&self) -> (doc: Json)
        ensures
            doc@ == response_tree(self@),
    {
        let mut members: Vec<Member> = Vec::new();
        members.push(Member::new("jsonrpc", Json::text(self.jsonrpc.as_str())));
        members.push(Member::new("id", self.id.duplicate()));
        match &self.error {
            Some(error) => {
                members.push(Member::new("error", error.to_json()));
            },
            None => {
                let result = match &self.result {
                    Some(result) => result.duplicate(),
                    None => Json::Null,
                };
                members.push(Member::new("result", result));
            },
        }
        let doc = Json::object(members);
        assert(doc@->Object_0 =~= response_tree(self@)->Object_0);
        doc
    }

    /// Writes the response as one line of JSON text.
    pub fn to_line(&self) -> (line: String)
        ensures
            line@ == response_line(self@),
            single_line(line@),
    {
        render(&self.to_json())
    }
}

/// What the gateway does about a request.
#[derive(Debug, PartialEq, Eq)]
pub enum Dispatch {
    /// It answers.
    Respond(JsonRpcResponse),
    /// It hands the call on: `request` is to be written to the input of
    /// the backend `backend`, and the answer follows the backend's reply.
    Forward { backend: String, request: Outgoing },
}

/// The content of a `Dispatch`.
pub enum DispatchSpec {
    Respond { response: ResponseSpec },
    Forward { backend: Seq<char>, id: u64, line: Seq<char> },
}

impl View for Dispatch {
    type V = DispatchSpec;

    open spec fn view(&self) -> DispatchSpec {
        match self {
            Dispatch::Respond(response) => DispatchSpec::Respond { response: response@ },
            Dispatch::Forward { backend, request } => DispatchSpec::Forward {
                backend: backend@,
                id: request.id,
                line: request.line@,
            },
        }
    }
}

/// What becomes of a routed call: the answer where the gateway has one,
/// the failure where the call cannot be made, else the request that goes
/// to the backend.
pub open spec fn call_dispatch(id: JsonTree, routing: RoutingSpec) -> DispatchSpec {
    match routing {
        RoutingSpec::Done { result } => DispatchSpec::Respond {
            response: succeeded(id, result_tree(result)),
        },
        RoutingSpec::Forwarded { backend, id: request_id, line } => DispatchSpec::Forward {
            backend,
            id: request_id,
            line,
        },
        RoutingSpec::MissingName => DispatchSpec::Respond {
            response: call_failure(
                id,
                "Missing required 'name' parameter for sanitize_tool_name"@,
            ),
        },
        RoutingSpec::NotFound { name } => DispatchSpec::Respond {
            response: call_failure(id, "Tool Not Found: "@ + name),
        },
        RoutingSpec::Unavailable { backend } => DispatchSpec::Respond {
            response: call_failure(id, "Backend Unavailable: "@ + backend),
        },
        RoutingSpec::Other => DispatchSpec::Respond { response: call_failure(id, Seq::empty()) },
    }
}

/// The arguments that the parameters of a call give: their member
/// `arguments`, or the empty object where they have none.
pub open spec fn given_arguments(params: JsonTree) -> JsonTree {
    match params.member("arguments"@) {
        Some(arguments) => arguments,
        None => JsonTree::Object(Seq::empty()),
    }
}

/// What the gateway does about a call of a tool with the parameters
/// `params`, and what that does to the registry. Parameters without a
/// string `name` are refused; else the call is routed, for the caller
/// `id`.
pub open spec fn dispatch_call(registry: AggregatorSpec, id: JsonTree, params: JsonTree) -> (
    AggregatorSpec,
    DispatchSpec,
) {
    match params.text_member("name"@) {
        None => (
            registry,
            DispatchSpec::Respond {
                response: failed(id, INVALID_PARAMS, "Invalid params: missing 'name' field"@, None),
            },
        ),
        Some(tool) => {
            let routed = registry.route(tool, given_arguments(params), id);
            (routed.0, call_dispatch(id, routed.1))
        },
    }
}

/// The id under which a request is answered: its own, or `null`.
pub open spec fn answer_id(request: RequestSpec) -> JsonTree {
    match request.id {
        Some(id) => id,
        None => JsonTree::Null,
    }
}

/// What the gateway does about a request, by its method, and what that
/// does to the registry.
pub open spec fn dispatch(registry: AggregatorSpec, request: RequestSpec) -> (
    AggregatorSpec,
    DispatchSpec,
) {
    let id = answer_id(request);
    if request.method == "$/initialize"@ {
        (registry, DispatchSpec::Respond { response: succeeded(id, server_info()) })
    } else if request.method == "$/shutdown"@ {
        (registry, DispatchSpec::Respond { response: succeeded(id, JsonTree::Null) })
    } else if request.method == "$/exit"@ {
        (registry, DispatchSpec::Respond { response: succeeded(id, JsonTree::Null) })
    } else if request.method == "tools/list"@ {
        (
            registry,
            DispatchSpec::Respond { response: succeeded(id, tools_tree(listing(registry.catalog))) },
        )
    } else if request.method == "tools/call"@ {
        match request.params {
            Some(params) => dispatch_call(registry, id, params),
            None => (
                registry,
                DispatchSpec::Respond {
                    response: failed(
                        id,
                        INVALID_PARAMS,
                        "Invalid params: params are required for tools/call"@,
                        None,
                    ),
                },
            ),
        }
    } else {
        (
            registry,
            DispatchSpec::Respond { response: failed(id, METHOD_NOT_FOUND, "Method not found"@, None) },
        )
    }
}

fn server_identity() -> (doc: Json)
    ensures
        doc@ == server_info(),
{
    let mut inner: Vec<Member> = Vec::new();
    inner.push(Member::new("name", Json::text("combine-mcp-rust")));
    inner.push(Member::new("version", Json::text("0.1.0")));
    let inner = Json::object(inner);
    assert(inner@->Object_0 =~= server_info()->Object_0[0].value->Object_0);
    let mut outer: Vec<Member> = Vec::new();
    outer.push(Member::new("serverInfo", inner));
    let doc = Json::object(outer);
    assert(doc@->Object_0 =~= server_info()->Object_0);
    doc
}

/// Answers a request for the list of tools.
pub fn handle_list_tools(id: Json, aggregator: &MCPAggregator) -> (response: JsonRpcResponse)
    ensures
        response@ == succeeded(id@, tools_tree(listing(aggregator@.catalog))),
{
    match aggregator.get_tools() {
        Ok(tools) => JsonRpcResponse::success(id, tools_to_json(&tools)),
        Err(e) => {
            let description = e.message();
            JsonRpcResponse::internal_error(id, joined("Failed to get tools: ", description.as_str()))
        },
    }
}

/// Handles a call of a tool with the parameters `params`, for the caller
/// that waits under `id`.
pub fn handle_call_tool(id: Json, params: &Json, aggregator: &mut MCPAggregator) -> (r: Dispatch)
    requires
        old(aggregator)@.well_formed(),
    ensures
        final(aggregator)@.well_formed(),
        final(aggregator).settings() == old(aggregator).settings(),
        (final(aggregator)@, r@) == dispatch_call(old(aggregator)@, id@, params@),
        r matches Dispatch::Forward { request: sent, .. } ==> single_line(sent.line@),
{
    let name = match params.get_str("name") {
        Some(tool) => tool.to_owned(),
        None => {
            return Dispatch::Respond(
                JsonRpcResponse::invalid_params(
                    id,
                    "Invalid params: missing 'name' field".to_owned(),
                ),
            );
        },
    };
    let arguments = match params.get("arguments") {
        Some(arguments) => arguments.duplicate(),
        None => Json::empty_object(),
    };
    let request = CallToolRequest { params: CallToolParams { name, arguments: Some(arguments) } };
    let routed = aggregator.call_tool(&request, id.duplicate());
    proof {
        reveal_strlit("");
        assert(""@ + "Missing required 'name' parameter for sanitize_tool_name"@
            =~= "Missing required 'name' parameter for sanitize_tool_name"@);
    }
    match routed {
        Ok(ToolCall::Done(result)) => Dispatch::Respond(
            JsonRpcResponse::success(id, result_to_json(&result)),
        ),
        Ok(ToolCall::Forwarded { backend, request }) => Dispatch::Forward { backend, request },
        Err(e) => Dispatch::Respond(JsonRpcResponse::call_failed(id, &e)),
    }
}

/// Handles a request: answers it, or hands a call on to a backend.
pub fn process_request(request: &JsonRpcRequest, aggregator: &mut MCPAggregator) -> (r: Dispatch)
    requires
        old(aggregator)@.well_formed(),
    ensures
        final(aggregator)@.well_formed(),
        final(aggregator).settings() == old(aggregator).settings(),
        (final(aggregator)@, r@) == dispatch(old(aggregator)@, request@),
        r matches Dispatch::Forward { request: sent, .. } ==> single_line(sent.line@),
{
    let id = match &request.id {
        Some(id) => id.duplicate(),
        None => Json::Null,
    };
    let method = request.method.as_str();
    if same_text(method, "$/initialize") {
        Dispatch::Respond(JsonRpcResponse::success(id, server_identity()))
    } else if same_text(method, "$/shutdown") {
        Dispatch::Respond(JsonRpcResponse::success(id, Json::Null))
    } else if same_text(method, "$/exit") {
        Dispatch::Respond(JsonRpcResponse::success(id, Json::Null))
    } else if same_text(method, "tools/list") {
        Dispatch::Respond(handle_list_tools(id, aggregator))
    } else if same_text(method, "tools/call") {
        match &request.params {
            Some(params) => handle_call_tool(id, params, aggregator),
            None => Dispatch::Respond(
                JsonRpcResponse::invalid_params(
                    id,
                    "Invalid params: params are required for tools/call".to_owned(),
                ),
            ),
        }
    } else {
        Dispatch::Respond(JsonRpcResponse::method_not_found(id))
    }
}

/// Where the gateway stands in its life.
#[derive(Clone, Copy, Debug, PartialEq, Eq)]
pub enum GatewayState {
    /// It takes requests.
    Running,
    /// Its input has ended, it was told to shut down, or it was
    /// interrupted: it takes no more requests.
    ShuttingDown,
    /// It has stopped, for good.
    Stopped,
}

/// What the gateway does about one line of input.
#[derive(Debug, PartialEq, Eq)]
pub enum Reaction {
    /// Nothing: the gateway takes no more requests.
    Ignored,
    /// It answers: `line` is to be written to the output, followed by a
    /// line break.
    Write { line: String },
    /// It hands a call on: `request` is to be written to the input of the
    /// backend `backend`.
    Forward { backend: String, request: Outgoing },
}

/// The content of a `Reaction`.
pub enum ReactionSpec {
    Ignored,
    Write { line: Seq<char> },
    Forward { backend: Seq<char>, id: u64, line: Seq<char> },
}

impl View for Reaction {
    type V = ReactionSpec;

    open spec fn view(&self) -> ReactionSpec {
        match self {
            Reaction::Ignored => ReactionSpec::Ignored,
            Reaction::Write { line } => ReactionSpec::Write { line: line@ },
            Reaction::Forward { backend, request } => ReactionSpec::Forward {
                backend: backend@,
                id: request.id,
                line: request.line@,
            },
        }
    }
}

impl Reaction {
    /// Whether what is to be written or sent is one line.
    pub open spec fn one_line(self) -> bool {
        match self {
            Reaction::Ignored => true,
            Reaction::Write { line } => single_line(line@),
            Reaction::Forward { request, .. } => single_line(request.line@),
        }
    }
}

/// The content of a list of reactions.
pub open spec fn reactions_view(reactions: Seq<Reaction>) -> Seq<ReactionSpec> {
    Seq::new(reactions.len(), |i: int| reactions[i]@)
}

/// What is written or sent for a dispatch.
pub open spec fn reaction_of(dispatch: DispatchSpec) -> ReactionSpec {
    match dispatch {
        DispatchSpec::Respond { response } => ReactionSpec::Write { line: response_line(response) },
        DispatchSpec::Forward { backend, id, line } => ReactionSpec::Forward { backend, id, line },
    }
}

/// The state after a request of this method was handled: the request to
/// shut down ends the taking of requests.
pub open spec fn state_after(method: Seq<char>) -> GatewayState {
    if method == "$/shutdown"@ {
        GatewayState::ShuttingDown
    } else {
        GatewayState::Running
    }
}

/// The state after the input ended, or after an interrupt: a running
/// gateway shuts down, any other stays as it is.
pub open spec fn state_after_end(state: GatewayState) -> GatewayState {
    match state {
        GatewayState::Running => GatewayState::ShuttingDown,
        _ => state,
    }
}

/// The complaint about a document that is no request.
pub open spec fn no_request() -> Seq<char> {
    "the request names no method"@
}

/// One step of the gateway: what a line of input, as the parser read it,
/// does to the gateway and to the registry, and what the gateway does
/// about it. A gateway that is not running ignores the line. A line that
/// is no JSON, or no request, is answered with a parse error and changes
/// nothing. A request is dispatched; the request to shut down is answered
/// and ends the taking of requests.
pub open spec fn step(
    state: GatewayState,
    registry: AggregatorSpec,
    parsed: Result<JsonTree, Seq<char>>,
) -> (GatewayState, AggregatorSpec, ReactionSpec) {
    if !(state is Running) {
        (state, registry, ReactionSpec::Ignored)
    } else {
        match parsed {
            Err(complaint) => (
                state,
                registry,
                ReactionSpec::Write { line: response_line(parse_failure(complaint)) },
            ),
            Ok(doc) => match envelope(doc) {
                None => (
                    state,
                    registry,
                    ReactionSpec::Write { line: response_line(parse_failure(no_request())) },
                ),
                Some(request) => {
                    let done = dispatch(registry, request);
                    (state_after(request.method), done.0, reaction_of(done.1))
                },
            },
        }
    }
}

/// The gateway and the registry after the first `count` of the lines were
/// taken in, one after the other.
pub open spec fn ran(
    state: GatewayState,
    registry: AggregatorSpec,
    lines: Seq<Seq<char>>,
    count: int,
) -> (GatewayState, AggregatorSpec)
    decreases count,
{
    if count <= 0 {
        (state, registry)
    } else {
        let before = ran(state, registry, lines, count - 1);
        let now = step(before.0, before.1, parsed_json(lines[count - 1]));
        (now.0, now.1)
    }
}

/// What the gateway does about the line `at` of the lines, after it took
/// in the lines before it.
pub open spec fn reaction_at(
    state: GatewayState,
    registry: AggregatorSpec,
    lines: Seq<Seq<char>>,
    at: int,
) -> ReactionSpec {
    let before = ran(state, registry, lines, at);
    step(before.0, before.1, parsed_json(lines[at])).2
}

/// What the gateway writes when a backend's reply resolves a request: the
/// answer to the caller of a tool call, and nothing for anything else.
pub open spec fn relayed(inbound: InboundSpec) -> ReactionSpec {
    match inbound {
        InboundSpec::Resolved { call, outcome } => if call.kind is ToolCall {
            ReactionSpec::Write {
                line: response_line(succeeded(call.caller, result_tree(translated(outcome)))),
            }
        } else {
            ReactionSpec::Ignored
        },
        _ => ReactionSpec::Ignored,
    }
}

/// What the gateway writes when a request is given up: the failure, to the
/// caller of a tool call, and nothing for anything else.
pub open spec fn given_up(call: PendingSpec, description: Seq<char>) -> ReactionSpec {
    if call.kind is ToolCall {
        ReactionSpec::Write { line: response_line(call_failure(call.caller, description)) }
    } else {
        ReactionSpec::Ignored
    }
}

/// The gateway.
#[derive(Debug)]
pub struct Gateway {
    state: GatewayState,
}

impl View for Gateway {
    type V = GatewayState;

    closed spec fn view(&self) -> GatewayState {
        self.state
    }
}

impl Gateway {
    /// A gateway that is running.
    pub fn new() -> (gateway: Gateway)
        ensures
            gateway@ == GatewayState::Running,
    {
        Gateway { state: GatewayState::Running }
    }

    /// Where the gateway stands in its life.
    pub fn state(&self) -> (state: GatewayState)
        ensures
            state == self@,
    {
        self.state
    }

    /// Takes in one line of input, as the parser read it.
    pub fn handle_message(
        &mut self,
        aggregator: &mut MCPAggregator,
        parsed: Result<Json, String>,
    ) -> (r: Reaction)
        requires
            old(aggregator)@.well_formed(),
        ensures
            final(aggregator)@.well_formed(),
            final(aggregator).settings() == old(aggregator).settings(),
            (final(self)@, final(aggregator)@, r@) == step(
                old(self)@,
                old(aggregator)@,
                outcome_view(parsed),
            ),
            r.one_line(),
    {
        match self.state {
            GatewayState::Running => {},
            _ => {
                return Reaction::Ignored;
            },
        }
        let doc = match parsed {
            Ok(doc) => doc,
            Err(complaint) => {
                return Reaction::Write {
                    line: JsonRpcResponse::parse_error(complaint.as_str()).to_line(),
                };
            },
        };
        let request = match JsonRpcRequest::from_json(&doc) {
            Some(request) => request,
            None => {
                return Reaction::Write {
                    line: JsonRpcResponse::parse_error("the request names no method").to_line(),
                };
            },
        };
        if same_text(request.method.as_str(), "$/shutdown") {
            self.state = GatewayState::ShuttingDown;
        }
        match process_request(&request, aggregator) {
            Dispatch::Respond(response) => Reaction::Write { line: response.to_line() },
            Dispatch::Forward { backend, request } => Reaction::Forward { backend, request },
        }
    }

    /// Takes in one line of input.
    pub fn handle_line(&mut self, aggregator: &mut MCPAggregator, line: &str) -> (r: Reaction)
        requires
            old(aggregator)@.well_formed(),
        ensures
            final(aggregator)@.well_formed(),
            final(aggregator).settings() == old(aggregator).settings(),
            (final(self)@, final(aggregator)@, r@) == step(
                old(self)@,
                old(aggregator)@,
                parsed_json(line@),
            ),
            r.one_line(),
    {
        let parsed = parse(line);
        self.handle_message(aggregator, parsed)
    }

    /// The input has ended: a running gateway shuts down.
    pub fn on_end_of_input(&mut self)
        ensures
            final(self)@ == state_after_end(old(self)@),
    {
        match self.state {
            GatewayState::Running => {
                self.state = GatewayState::ShuttingDown;
            },
            _ => {},
        }
    }

    /// The process was interrupted: a running gateway shuts down.
    pub fn on_interrupt(&mut self)
        ensures
            final(self)@ == state_after_end(old(self)@),
    {
        self.on_end_of_input()
    }

    /// The sessions are closed and nothing is left to do: the gateway
    /// stops.
    pub fn stop(&mut self)
        ensures
            final(self)@ == GatewayState::Stopped,
    {
        self.state = GatewayState::Stopped;
    }
}

/// What the gateway writes when a backend's reply resolved a request.
pub fn relay(inbound: Inbound) -> (r: Reaction)
    ensures
        r@ == relayed(inbound@),
        r.one_line(),
{
    match inbound {
        Inbound::Resolved { call, outcome } => match call.kind {
            CallKind::ToolCall => {
                let result = translate_result(outcome);
                Reaction::Write {
                    line: JsonRpcResponse::success(call.caller, result_to_json(&result)).to_line(),
                }
            },
            _ => Reaction::Ignored,
        },
        _ => Reaction::Ignored,
    }
}

/// What the gateway writes when a request is given up, because its
/// deadline passed or because its backend is gone.
pub fn give_up(call: PendingCall, error: &AppError) -> (r: Reaction)
    ensures
        r@ == given_up(call@, error.description()),
        r.one_line(),
{
    match call.kind {
        CallKind::ToolCall => Reaction::Write {
            line: JsonRpcResponse::call_failed(call.caller, error).to_line(),
        },
        _ => Reaction::Ignored,
    }
}

/// Takes in the lines of an input, one after the other, from a running
/// gateway on, and hands back what the gateway does about each of them.
/// After the request to shut down the lines that follow are ignored; when
/// the lines have run out the gateway shuts down.
pub fn run(aggregator: &mut MCPAggregator, lines: &Vec<String>) -> (reactions: Vec<Reaction>)
    requires
        old(aggregator)@.well_formed(),
    ensures
        final(aggregator)@.well_formed(),
        final(aggregator).settings() == old(aggregator).settings(),
        final(aggregator)@ == ran(
            GatewayState::Running,
            old(aggregator)@,
            lines_view(lines@),
            lines.len() as int,
        ).1,
        reactions.len() == lines.len(),
        forall|i: int|
            0 <= i < lines.len() ==> (#[trigger] reactions[i])@ == reaction_at(
                GatewayState::Running,
                old(aggregator)@,
                lines_view(lines@),
                i,
            ) && reactions[i].one_line(),
{
    let mut gateway = Gateway::new();
    let mut reactions: Vec<Reaction> = Vec::new();
    let ghost start = aggregator@;
    let ghost all = lines_view(lines@);
    let mut i: usize = 0;
    while i < lines.len()
        invariant
            i <= lines.len(),
            all == lines_view(lines@),
            aggregator@.well_formed(),
            aggregator.settings() == old(aggregator).settings(),
            (gateway@, aggregator@) == ran(GatewayState::Running, start, all, i as int),
            reactions.len() == i,
            forall|k: int|
                0 <= k < i ==> (#[trigger] reactions[k])@ == reaction_at(
                    GatewayState::Running,
                    start,
                    all,
                    k,
                ) && reactions[k].one_line(),
        decreases lines.len() - i,
    {
        let reaction = gateway.handle_line(aggregator, lines[i].as_str());
        reactions.push(reaction);
        i = i + 1;
    }
    gateway.on_end_of_input();
    reactions
}

/// The content of a list of lines.
pub open spec fn lines_view(lines: Seq<String>) -> Seq<Seq<char>> {
    Seq::new(lines.len(), |i: int| lines[i]@)
}

/// A line that is no JSON gets one answer, a parse error under the id
/// `null`, and changes neither the gateway nor the registry: a running
/// gateway keeps running, and takes the line that follows as if the bad
/// line had not come.
pub proof fn lemma_malformed_line_is_passed(
    registry: AggregatorSpec,
    lines: Seq<Seq<char>>,
    bad: int,
)
    requires
        0 <= bad < lines.len(),
        parsed_json(lines[bad]) is Err,
        ran(GatewayState::Running, registry, lines, bad).0 is Running,
    ensures
        reaction_at(GatewayState::Running, registry, lines, bad) == (ReactionSpec::Write {
            line: response_line(
                failed(
                    JsonTree::Null,
                    PARSE_ERROR,
                    "Parse error: "@ + parsed_json(lines[bad])->Err_0,
                    None,
                ),
            ),
        }),
        ran(GatewayState::Running, registry, lines, bad + 1) == ran(
            GatewayState::Running,
            registry,
            lines,
            bad,
        ),
        bad + 1 < lines.len() ==> reaction_at(GatewayState::Running, registry, lines, bad + 1) == step(
            GatewayState::Running,
            ran(GatewayState::Running, registry, lines, bad).1,
            parsed_json(lines[bad + 1]),
        ).2,
{
}

/// A call of a tool that the catalog does not list, and that is not the
/// gateway's own, is answered with an internal error that names the tool,
/// under the id of the request; the registry stays as it is.
pub proof fn lemma_unknown_tool_is_answered(
    registry: AggregatorSpec,
    id: JsonTree,
    params: JsonTree,
    tool: Seq<char>,
)
    requires
        params.text_member("name"@) == Some(tool),
        tool != builtin_name(),
        !lists(registry.catalog, tool),
    ensures
        dispatch_call(registry, id, params) == (
            registry,
            DispatchSpec::Respond {
                response: failed(
                    id,
                    INTERNAL_ERROR,
                    "Tool call failed: "@ + ("Tool Not Found: "@ + tool),
                    None,
                ),
            },
        ),
{
}

/// The gateway's life runs one way: from running to shutting down to
/// stopped. No line of input and no end of input brings a gateway that
/// shuts down, or one that has stopped, back to running.
pub proof fn lemma_life_runs_one_way(
    state: GatewayState,
    registry: AggregatorSpec,
    parsed: Result<JsonTree, Seq<char>>,
)
    ensures
        !(state is Running) ==> step(state, registry, parsed) == (
            state,
            registry,
            ReactionSpec::Ignored,
        ),
        !(step(state, registry, parsed).0 is Stopped) || state is Stopped,
        !(state_after_end(state) is Running),
        state is Stopped ==> state_after_end(state) is Stopped,
{
}

} // verus!
