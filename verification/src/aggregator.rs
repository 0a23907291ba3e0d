//! The registry at work: the sessions with the backends, the catalog that
//! lists every backend's tools under prefixed names, and the routing of a
//! call to the backend that owns the tool.

use vstd::prelude::*;
use crate::config::Config;
use crate::error::{AppError, ErrorKind};
use crate::json::{document, maybe_view, parse, parsed_json, single_line, Json, JsonTree, Member};
use crate::naming::prefixed_name;
pub use crate::naming::sanitize_tool_name;
use crate::registry::{any_started, builtin_result, builtin_schema, builtin_tool, content_of, dropped};
use crate::registry::{distinct_names, distinct_sessions, faithful, all_served, sound_sessions};
use crate::registry::{lemma_dropped, lemma_listed_all, lemma_place_is_unique, lemma_receive_keeps_name};
use crate::registry::{lemma_register, lemma_seat_is_unique, lemma_with_session, lemma_without};
use crate::registry::{listed, listed_all, listing, lists, outstanding_all, place, seat, serves};
use crate::registry::{shown, translated, unlisted, AggregatorSpec, RoutingSpec};
use crate::session::{lemma_issue, pending_view, CallKind, ChildSession, Inbound, Outgoing};
use crate::session::{PendingCall, PendingSpec, SessionSpec, SessionState};
use crate::text::same_text;

verus! {

/// A tool as a backend describes it, or as the catalog lists it.
#[derive(Debug, PartialEq, Eq)]
pub struct Tool {
    pub name: String,
    pub description: String,
    pub input_schema: Json,
}

/// The content of a `Tool`.
pub struct ToolSpec {
    pub name: Seq<char>,
    pub description: Seq<char>,
    pub input_schema: JsonTree,
}

impl View for Tool {
    type V = ToolSpec;

    open spec fn view(&self) -> ToolSpec {
        ToolSpec {
            name: self.name@,
            description: self.description@,
            input_schema: self.input_schema@,
        }
    }
}

/// The content of a list of tools.
pub open spec fn tools_view(tools: Seq<Tool>) -> Seq<ToolSpec> {
    Seq::new(tools.len(), |i: int| tools[i]@)
}

/// The parameters of a call: the tool's name in the catalog and the
/// arguments for it.
#[derive(Debug, PartialEq, Eq)]
pub struct CallToolParams {
    pub name: String,
    pub arguments: Option<Json>,
}

/// A call of a tool.
#[derive(Debug, PartialEq, Eq)]
pub struct CallToolRequest {
    pub params: CallToolParams,
}

/// One item of what a tool returns: plain text, or structured data.
#[derive(Debug, PartialEq, Eq)]
pub enum ToolResponseContent {
    Text { text: String },
    Json { json: Json },
}

/// The content of a `ToolResponseContent`.
pub enum ContentSpec {
    Text { text: Seq<char> },
    Json { json: JsonTree },
}

impl View for ToolResponseContent {
    type V = ContentSpec;

    open spec fn view(&self) -> ContentSpec {
        match self {
            ToolResponseContent::Text { text } => ContentSpec::Text { text: text@ },
            ToolResponseContent::Json { json } => ContentSpec::Json { json: json@ },
        }
    }
}

/// What a tool returns: its content, whether it failed, and what else the
/// backend said of the call.
#[derive(Debug, PartialEq, Eq)]
pub struct CallToolResult {
    pub content: Vec<ToolResponseContent>,
    pub is_error: Option<bool>,
    pub meta: Option<Json>,
}

/// The content of a `CallToolResult`.
pub struct ResultSpec {
    pub content: Seq<ContentSpec>,
    pub is_error: Option<bool>,
    pub meta: Option<JsonTree>,
}

/// The content of a list of content items.
pub open spec fn content_view(content: Seq<ToolResponseContent>) -> Seq<ContentSpec> {
    Seq::new(content.len(), |i: int| content[i]@)
}

impl View for CallToolResult {
    type V = ResultSpec;

    open spec fn view(&self) -> ResultSpec {
        ResultSpec {
            content: content_view(self.content@),
            is_error: self.is_error,
            meta: match self.meta {
                Some(meta) => Some(meta@),
                None => None,
            },
        }
    }
}

/// One entry of the catalog: a backend's tool, and the prefixed name under
/// which callers see it.
#[derive(Debug, PartialEq, Eq)]
pub struct ToolMapping {
    pub prefixed_name: String,
    pub backend: String,
    pub tool: Tool,
}

/// The content of a `ToolMapping`.
pub struct MappingSpec {
    pub prefixed_name: Seq<char>,
    pub backend: Seq<char>,
    pub tool: ToolSpec,
}

impl View for ToolMapping {
    type V = MappingSpec;

    open spec fn view(&self) -> MappingSpec {
        MappingSpec { prefixed_name: self.prefixed_name@, backend: self.backend@, tool: self.tool@ }
    }
}

/// The content of a list of catalog entries.
pub open spec fn mappings_view(mappings: Seq<ToolMapping>) -> Seq<MappingSpec> {
    Seq::new(mappings.len(), |i: int| mappings[i]@)
}

/// The content of a list of sessions.
pub open spec fn sessions_view(sessions: Seq<ChildSession>) -> Seq<SessionSpec> {
    Seq::new(sessions.len(), |i: int| sessions[i]@)
}

/// The outcome of bringing up one backend, as the caller found it: the
/// session and the tools that the backend reported, or the failure.
#[derive(Debug)]
pub enum BackendStart {
    Started { session: ChildSession, tools: Vec<Tool> },
    Failed { name: String, error: AppError },
}

/// The content of a `BackendStart`.
pub enum StartSpec {
    Started { session: SessionSpec, tools: Seq<ToolSpec> },
    Failed { name: Seq<char>, kind: ErrorKind, detail: Seq<char> },
}

impl View for BackendStart {
    type V = StartSpec;

    open spec fn view(&self) -> StartSpec {
        match self {
            BackendStart::Started { session, tools } => StartSpec::Started {
                session: session@,
                tools: tools_view(tools@),
            },
            BackendStart::Failed { name, error } => StartSpec::Failed {
                name: name@,
                kind: error.sort(),
                detail: error.detail(),
            },
        }
    }
}

/// The content of a list of outcomes.
pub open spec fn starts_view(starts: Seq<BackendStart>) -> Seq<StartSpec> {
    Seq::new(starts.len(), |i: int| starts[i]@)
}

/// The arguments that a call hands on: those it names, or the empty object.
pub open spec fn arguments_of(arguments: Option<Json>) -> JsonTree {
    match arguments {
        Some(value) => value@,
        None => JsonTree::Object(Seq::empty()),
    }
}

fn content_item(value: Json) -> (item: ToolResponseContent)
    ensures
        item@ == content_of(value@),
{
    match value {
        Json::Text(text) => ToolResponseContent::Text { text },
        other => ToolResponseContent::Json { json: other },
    }
}

/// Turns a backend's answer to a call into the result that the caller
/// gets.
pub fn translate_result(outcome: Result<Json, Json>) -> (result: CallToolResult)
    ensures
        result@ == translated(
            match outcome {
                Ok(value) => Ok(value@),
                Err(error) => Err(error@),
            },
        ),
{
    let mut content: Vec<ToolResponseContent> = Vec::new();
    match outcome {
        Ok(value) => {
            content.push(content_item(value));
            let result = CallToolResult { content, is_error: None, meta: None };
            assert(result@.content =~= seq![content_of(value@)]);
            result
        },
        Err(error) => {
            let shown = match error.get("message") {
                Some(message) => message.duplicate(),
                None => error.duplicate(),
            };
            content.push(content_item(shown));
            let result = CallToolResult { content, is_error: Some(true), meta: Some(error) };
            assert(result@.content =~= translated(Err(error@)).content);
            result
        },
    }
}

fn builtin_descriptor() -> (tool: Tool)
    ensures
        tool@ == builtin_tool(),
{
    let mut name_schema: Vec<Member> = Vec::new();
    name_schema.push(Member::new("type", Json::text("string")));
    name_schema.push(Member::new("description", Json::text("The tool name to sanitize")));
    let name_schema = Json::object(name_schema);
    let mut properties: Vec<Member> = Vec::new();
    properties.push(Member::new("name", name_schema));
    let properties = Json::object(properties);
    let mut required: Vec<Json> = Vec::new();
    required.push(Json::text("name"));
    let required = Json::array(required);
    let mut schema: Vec<Member> = Vec::new();
    schema.push(Member::new("type", Json::text("object")));
    schema.push(Member::new("properties", properties));
    schema.push(Member::new("required", required));
    let schema = Json::object(schema);
    proof {
        let inner = builtin_schema()->Object_0[1].value;
        assert(name_schema@->Object_0 =~= inner->Object_0[0].value->Object_0);
        assert(properties@->Object_0 =~= inner->Object_0);
        assert(required@->Array_0 =~= builtin_schema()->Object_0[2].value->Array_0);
        assert(schema@->Object_0 =~= builtin_schema()->Object_0);
    }
    Tool {
        name: "sanitize_tool_name".to_owned(),
        description: "Sanitizes a tool name by replacing dashes with underscores".to_owned(),
        input_schema: schema,
    }
}

/// What a call of a tool leads to.
#[derive(Debug, PartialEq, Eq)]
pub enum ToolCall {
    /// The gateway has answered the call itself.
    Done(CallToolResult),
    /// The call is on its way: `request` is to be written to the input of
    /// the backend `backend`, whose reply will carry the request's id.
    Forwarded { backend: String, request: Outgoing },
}

/// A session that was shut: the backend's name, and the requests that were
/// outstanding and now fail.
#[derive(Debug, PartialEq, Eq)]
pub struct Drained {
    pub backend: String,
    pub failed: Vec<PendingCall>,
}

/// The registry of backends and their tools.
#[derive(Debug)]
pub struct MCPAggregator {
    config: Config,
    clients: Vec<ChildSession>,
    tools: Vec<ToolMapping>,
}

impl View for MCPAggregator {
    type V = AggregatorSpec;

    closed spec fn view(&self) -> AggregatorSpec {
        AggregatorSpec { sessions: sessions_view(self.clients@), catalog: mappings_view(self.tools@) }
    }
}

impl MCPAggregator {
    /// The configuration that the registry was made with.
    pub closed spec fn settings(&self) -> Config {
        self.config
    }

    /// A registry for the backends that `config` names, with no session and
    /// no tool yet.
    pub fn new(config: Config) -> (aggregator: MCPAggregator)
        ensures
            aggregator@ == AggregatorSpec::empty(),
            aggregator@.well_formed(),
            aggregator.settings() == config,
    {
        let aggregator = MCPAggregator { config, clients: Vec::new(), tools: Vec::new() };
        assert(aggregator@.sessions =~= Seq::empty());
        assert(aggregator@.catalog =~= Seq::empty());
        aggregator
    }

    /// The configuration that the registry was made with.
    pub fn config(&self) -> (config: &Config)
        ensures
            *config == self.settings(),
    {
        &self.config
    }

    /// How many backends have a session.
    pub fn session_count(&self) -> (n: usize)
        ensures
            n == self@.sessions.len(),
    {
        self.clients.len()
    }

    /// How many tools the catalog lists, the gateway's own not counted.
    pub fn tool_count(&self) -> (n: usize)
        ensures
            n == self@.catalog.len(),
    {
        self.tools.len()
    }

    fn find_tool(&self, name: &str) -> (r: Option<usize>)
        requires
            distinct_names(self@.catalog),
        ensures
            match r {
                Some(i) => lists(self@.catalog, name@) && i == place(self@.catalog, name@) && i
                    < self.tools.len(),
                None => !lists(self@.catalog, name@),
            },
    {
        let mut i: usize = 0;
        while i < self.tools.len()
            invariant
                distinct_names(self@.catalog),
                i <= self.tools.len(),
                forall|k: int| 0 <= k < i ==> self@.catalog[k].prefixed_name != name@,
            decreases self.tools.len() - i,
        {
            if same_text(self.tools[i].prefixed_name.as_str(), name) {
                proof {
                    lemma_place_is_unique(self@.catalog, name@, i as int);
                }
                return Some(i);
            }
            i = i + 1;
        }
        None
    }

    fn find_session(&self, name: &str) -> (r: Option<usize>)
        requires
            distinct_sessions(self@.sessions),
        ensures
            match r {
                Some(i) => serves(self@.sessions, name@) && i == seat(self@.sessions, name@) && i
                    < self.clients.len(),
                None => !serves(self@.sessions, name@),
            },
    {
        let mut i: usize = 0;
        while i < self.clients.len()
            invariant
                distinct_sessions(self@.sessions),
                i <= self.clients.len(),
                forall|k: int| 0 <= k < i ==> self@.sessions[k].name != name@,
            decreases self.clients.len() - i,
        {
            if same_text(self.clients[i].name(), name) {
                proof {
                    lemma_seat_is_unique(self@.sessions, name@, i as int);
                }
                return Some(i);
            }
            i = i + 1;
        }
        None
    }

    /// Whether the catalog lists a tool under this name.
    pub fn has_tool(&self, name: &str) -> (r: bool)
        requires
            self@.well_formed(),
        ensures
            r == lists(self@.catalog, name@),
    {
        self.find_tool(name).is_some()
    }

    /// The state of a backend's session, if the backend has one.
    pub fn session_state(&self, backend: &str) -> (r: Option<SessionState>)
        requires
            self@.well_formed(),
        ensures
            match r {
                Some(state) => serves(self@.sessions, backend@) && state == self@.session(
                    backend@,
                ).state,
                None => !serves(self@.sessions, backend@),
            },
    {
        match self.find_session(backend) {
            Some(i) => Some(self.clients[i].state()),
            None => None,
        }
    }

    fn list(&mut self, entry: ToolMapping)
        requires
            distinct_names(old(self)@.catalog),
        ensures
            final(self)@.catalog == listed(old(self)@.catalog, entry@),
            final(self)@.sessions == old(self)@.sessions,
            final(self).settings() == old(self).settings(),
    {
        match self.find_tool(entry.prefixed_name.as_str()) {
            Some(i) => {
                self.tools.set(i, entry);
                assert(self@.catalog =~= listed(old(self)@.catalog, entry@));
            },
            None => {
                self.tools.push(entry);
                assert(self@.catalog =~= listed(old(self)@.catalog, entry@));
            },
        }
    }

    fn unlist(&mut self, backend: &str)
        ensures
            final(self)@.catalog == unlisted(old(self)@.catalog, backend@),
            final(self)@.sessions == old(self)@.sessions,
            final(self).settings() == old(self).settings(),
    {
        let ghost before = self@.catalog;
        let mut i: usize = 0;
        let ghost mut k: int = 0;
        proof {
            assert(before.take(0) =~= Seq::empty());
            assert(self@.catalog.skip(0) =~= before.skip(0));
            assert(self@.catalog.take(0) =~= unlisted(before.take(0), backend@));
        }
        while i < self.tools.len()
            invariant
                i <= self.tools.len(),
                0 <= k <= before.len(),
                self.tools.len() - i == before.len() - k,
                self@.catalog.take(i as int) == unlisted(before.take(k), backend@),
                self@.catalog.skip(i as int) == before.skip(k),
                self@.sessions == old(self)@.sessions,
                self.settings() == old(self).settings(),
            decreases self.tools.len() - i,
        {
            let ghost current = self@.catalog;
            proof {
                assert(current[i as int] == current.skip(i as int)[0]);
                assert(before[k] == before.skip(k)[0]);
                assert(before.take(k + 1).drop_last() =~= before.take(k));
                assert(before.take(k + 1).last() == before[k]);
            }
            if same_text(self.tools[i].backend.as_str(), backend) {
                self.tools.remove(i);
                proof {
                    assert(self@.catalog =~= current.remove(i as int));
                    assert(self@.catalog.take(i as int) =~= current.take(i as int));
                    assert(self@.catalog.skip(i as int) =~= current.skip(i as int).skip(1));
                    assert(before.skip(k).skip(1) =~= before.skip(k + 1));
                    k = k + 1;
                }
            } else {
                proof {
                    assert(current.take(i as int + 1) =~= current.take(i as int).push(
                        current[i as int],
                    ));
                    assert(current.skip(i as int + 1) =~= current.skip(i as int).skip(1));
                    assert(before.skip(k).skip(1) =~= before.skip(k + 1));
                    k = k + 1;
                }
                i = i + 1;
            }
        }
        proof {
            assert(self@.catalog.take(i as int) =~= self@.catalog);
            assert(before.take(k) =~= before);
        }
    }

    /// Takes a backend in: its session, and the tools that it reported. A
    /// backend of the same name gives way, with its tools. Each tool is
    /// listed under the backend's name, an underscore and the tool's
    /// normalised name; where two tools come under one such name, the later
    /// one is listed.
    pub fn register(&mut self, session: ChildSession, tools: Vec<Tool>)
        requires
            old(self)@.well_formed(),
            session@.well_formed(),
        ensures
            final(self)@ == old(self)@.register(session@, tools_view(tools@)),
            final(self)@.well_formed(),
            final(self).settings() == old(self).settings(),
    {
        let ghost name = session@.name;
        let ghost all = tools_view(tools@);
        proof {
            lemma_register(old(self)@, session@, all);
            lemma_without(old(self)@, name);
            lemma_dropped(old(self)@.sessions, name);
        }
        match self.find_session(session.name()) {
            Some(i) => {
                self.clients.remove(i);
                assert(self@.sessions =~= dropped(old(self)@.sessions, name));
            },
            None => {
                assert(self@.sessions =~= dropped(old(self)@.sessions, name));
            },
        }
        self.unlist(session.name());
        let backend: String = session.name().to_owned();
        self.clients.push(session);
        assert(self@.sessions =~= old(self)@.register(session@, all).sessions);
        let ghost sessions = self@.sessions;
        let ghost base = self@.catalog;
        proof {
            lemma_seat_is_unique(sessions, name, sessions.len() - 1);
            assert forall|i: int| 0 <= i < base.len() implies serves(
                sessions,
                (#[trigger] base[i]).backend,
            ) by {
                let k = seat(old(self)@.without(name).sessions, base[i].backend);
                assert(sessions[k].name == base[i].backend);
            }
        }
        for tool in it: tools
            invariant
                it.seq() == tools@,
                all == tools_view(tools@),
                backend@ == name,
                serves(sessions, name),
                self@.sessions == sessions,
                distinct_names(base),
                faithful(base),
                all_served(base, sessions),
                self@.catalog == listed_all(base, name, all, it.index() as int),
                self.settings() == old(self).settings(),
        {
            proof {
                lemma_listed_all(base, sessions, name, all, it.index() as int);
                assert(all[it.index() as int] == tool@);
            }
            let listed_name = prefixed_name(backend.as_str(), tool.name.as_str());
            self.list(ToolMapping { prefixed_name: listed_name, backend: backend.clone(), tool });
        }
    }

    /// Takes in what bringing up the backends led to, outcome by outcome:
    /// each backend that came up is registered with its tools, each that
    /// failed is passed over and holds up none of the others. Succeeds
    /// where at least one backend came up, and fails where none did.
    pub fn initialize(&mut self, starts: Vec<BackendStart>) -> (r: Result<(), AppError>)
        requires
            old(self)@.well_formed(),
            forall|i: int|
                0 <= i < starts.len() ==> ((#[trigger] starts[i]) matches BackendStart::Started {
                    session,
                    ..
                } ==> session@.well_formed()),
        ensures
            final(self)@ == old(self)@.started(starts_view(starts@), starts.len() as int),
            final(self)@.well_formed(),
            final(self).settings() == old(self).settings(),
            match r {
                Ok(_) => any_started(starts_view(starts@)),
                Err(e) => !any_started(starts_view(starts@)) && (e matches AppError::Initialization(
                    m,
                ) && m@ == "No servers were successfully initialized"@),
            },
    {
        let ghost all = starts_view(starts@);
        let mut any: bool = false;
        for start in it: starts
            invariant
                it.seq() == starts@,
                all == starts_view(starts@),
                forall|i: int|
                    0 <= i < starts.len() ==> ((#[trigger] starts[i]) matches BackendStart::Started {
                        session,
                        ..
                    } ==> session@.well_formed()),
                self@ == old(self)@.started(all, it.index() as int),
                self@.well_formed(),
                self.settings() == old(self).settings(),
                any <==> exists|k: int| 0 <= k < it.index() && (#[trigger] all[k]) is Started,
        {
            proof {
                assert(all[it.index() as int] == start@);
                assert(starts[it.index() as int] == start);
            }
            match start {
                BackendStart::Started { session, tools } => {
                    self.register(session, tools);
                    any = true;
                },
                BackendStart::Failed { .. } => {},
            }
        }
        if any {
            Ok(())
        } else {
            Err(AppError::Initialization("No servers were successfully initialized".to_owned()))
        }
    }

    /// The tools that the gateway offers: every entry of the catalog under
    /// its prefixed name, in the catalog's order, and last the gateway's
    /// own tool. This never fails.
    pub fn get_tools(&self) -> (r: Result<Vec<Tool>, AppError>)
        ensures
            r matches Ok(tools) && tools_view(tools@) == listing(self@.catalog),
    {
        let mut tools: Vec<Tool> = Vec::new();
        let mut i: usize = 0;
        while i < self.tools.len()
            invariant
                i <= self.tools.len(),
                tools.len() == i,
                forall|k: int| 0 <= k < i ==> tools[k]@ == shown(self@.catalog[k]),
            decreases self.tools.len() - i,
        {
            let entry = &self.tools[i];
            tools.push(
                Tool {
                    name: entry.prefixed_name.clone(),
                    description: entry.tool.description.clone(),
                    input_schema: entry.tool.input_schema.duplicate(),
                },
            );
            i = i + 1;
        }
        tools.push(builtin_descriptor());
        assert(tools_view(tools@) =~= listing(self@.catalog));
        Ok(tools)
    }

    /// Calls a tool for the caller that waits under `caller`.
    ///
    /// The gateway's own tool is answered at once, with the normalised form
    /// of the argument `name`; without that argument the call fails. A name
    /// that the catalog does not list fails with `ToolNotFound`, and no
    /// backend hears of it. Any other call goes to the backend that owns
    /// the tool, under the tool's own name and with exactly the arguments
    /// given (the empty object where none are given); where that backend
    /// takes no calls, the call fails with `BackendUnavailable`.
    pub fn call_tool(&mut self, request: &CallToolRequest, caller: Json) -> (r: Result<
        ToolCall,
        AppError,
    >)
        requires
            old(self)@.well_formed(),
        ensures
            final(self)@.well_formed(),
            final(self).settings() == old(self).settings(),
            old(self)@.route(
                request.params.name@,
                arguments_of(request.params.arguments),
                caller@,
            ) == (final(self)@, routing_view(r)),
            r matches Ok(ToolCall::Forwarded { request: sent, .. }) ==> single_line(sent.line@),
    {
        let name = request.params.name.as_str();
        if same_text(name, "sanitize_tool_name") {
            let given = match &request.params.arguments {
                Some(arguments) => arguments.get_str("name"),
                None => {
                    assert(JsonTree::Object(Seq::empty()).text_member("name"@) is None);
                    None
                },
            };
            return match given {
                Some(text) => {
                    let mut content: Vec<ToolResponseContent> = Vec::new();
                    content.push(ToolResponseContent::Text { text: sanitize_tool_name(text) });
                    let result = CallToolResult { content, is_error: None, meta: None };
                    assert(result@.content =~= builtin_result(text@).content);
                    Ok(ToolCall::Done(result))
                },
                None => Err(
                    AppError::Other(
                        "Missing required 'name' parameter for sanitize_tool_name".to_owned(),
                    ),
                ),
            };
        }
        let i = match self.find_tool(name) {
            Some(i) => i,
            None => {
                return Err(AppError::ToolNotFound(name.to_owned()));
            },
        };
        let entry = &self.tools[i];
        let k = match self.find_session(entry.backend.as_str()) {
            Some(k) => k,
            None => {
                return Err(AppError::BackendUnavailable(entry.backend.clone()));
            },
        };
        let arguments = match &request.params.arguments {
            Some(arguments) => arguments.duplicate(),
            None => Json::empty_object(),
        };
        let backend = entry.backend.clone();
        let ghost before = self@;
        let sent = self.clients[k].begin_call(entry.tool.name.as_str(), arguments, caller);
        match sent {
            Some(request) => {
                proof {
                    let session = before.session(backend@).issue(CallKind::ToolCall, caller@);
                    assert(self@.sessions =~= before.with_session(backend@, session).sessions);
                    lemma_issue(
                        before.session(backend@),
                        CallKind::ToolCall,
                        caller@,
                    );
                    lemma_with_session(before, backend@, session);
                }
                Ok(ToolCall::Forwarded { backend, request })
            },
            None => {
                proof {
                    assert(self@.sessions =~= before.sessions);
                }
                Err(AppError::BackendUnavailable(backend))
            },
        }
    }

    /// Takes in one message from the backend `backend`, already read as
    /// JSON (`None` for a line that is no JSON).
    pub fn on_backend_message(&mut self, backend: &str, message: Option<Json>) -> (r: Inbound)
        requires
            old(self)@.well_formed(),
        ensures
            final(self)@.well_formed(),
            final(self).settings() == old(self).settings(),
            (final(self)@, r@) == old(self)@.receive(backend@, maybe_view(message)),
    {
        let k = match self.find_session(backend) {
            Some(k) => k,
            None => {
                return Inbound::Unmatched;
            },
        };
        let ghost before = self@;
        let ghost content = maybe_view(message);
        let r = self.clients[k].on_message(message);
        proof {
            let session = self@.sessions[k as int];
            assert(self@.sessions =~= before.with_session(backend@, session).sessions);
            lemma_receive_keeps_name(before.session(backend@), content);
            lemma_with_session(before, backend@, session);
        }
        r
    }

    /// Takes in one line from the output of the backend `backend`.
    pub fn on_backend_line(&mut self, backend: &str, line: &str) -> (r: Inbound)
        requires
            old(self)@.well_formed(),
        ensures
            final(self)@.well_formed(),
            final(self).settings() == old(self).settings(),
            (final(self)@, r@) == old(self)@.receive(backend@, document(parsed_json(line@))),
    {
        let message = match parse(line) {
            Ok(doc) => Some(doc),
            Err(_) => None,
        };
        self.on_backend_message(backend, message)
    }

    /// The deadline of the request `id` to `backend` has passed: where the
    /// request is outstanding it is given up and handed back, to be failed
    /// with `Timeout`. Else nothing changes.
    pub fn on_backend_timeout(&mut self, backend: &str, id: u64) -> (r: Option<PendingCall>)
        requires
            old(self)@.well_formed(),
        ensures
            final(self)@.well_formed(),
            final(self).settings() == old(self).settings(),
            final(self)@ == old(self)@.expired(backend@, id),
            match r {
                Some(call) => serves(old(self)@.sessions, backend@) && old(self)@.session(
                    backend@,
                ).holds(id) && call@ == old(self)@.session(backend@).call(id),
                None => !(serves(old(self)@.sessions, backend@) && old(self)@.session(
                    backend@,
                ).holds(id)),
            },
    {
        let k = match self.find_session(backend) {
            Some(k) => k,
            None => {
                return None;
            },
        };
        let ghost before = self@;
        let r = self.clients[k].on_timeout(id);
        proof {
            let session = self@.sessions[k as int];
            assert(self@.sessions =~= before.with_session(backend@, session).sessions);
            if r is Some {
                lemma_with_session(before, backend@, session);
            } else {
                assert(self@.sessions =~= before.sessions);
            }
        }
        r
    }

    /// The process of the backend `backend` is gone. Its session is shut
    /// and leaves the registry together with its tools; the requests that
    /// were outstanding are handed back, to be failed with
    /// `BackendUnavailable`.
    pub fn on_backend_exit(&mut self, backend: &str) -> (failed: Vec<PendingCall>)
        requires
            old(self)@.well_formed(),
        ensures
            final(self)@ == old(self)@.without(backend@),
            final(self)@.well_formed(),
            final(self).settings() == old(self).settings(),
            pending_view(failed@) == old(self)@.outstanding(backend@),
    {
        proof {
            lemma_without(old(self)@, backend@);
        }
        let failed = match self.find_session(backend) {
            Some(k) => {
                let mut session = self.clients.remove(k);
                assert(self@.sessions =~= dropped(old(self)@.sessions, backend@));
                assert(session@ == old(self)@.sessions[k as int]);
                session.close()
            },
            None => {
                let failed: Vec<PendingCall> = Vec::new();
                assert(pending_view(failed@) =~= Seq::empty());
                failed
            },
        };
        self.unlist(backend);
        failed
    }

    /// Shuts every session and empties the registry. What is handed back
    /// names, in the order of the sessions, each backend whose process is
    /// to be stopped, with the requests that were outstanding on it and
    /// now fail. Closing an empty registry hands back nothing.
    pub fn close(&mut self) -> (drained: Vec<Drained>)
        requires
            old(self)@.well_formed(),
        ensures
            final(self)@ == AggregatorSpec::empty(),
            final(self)@.well_formed(),
            final(self).settings() == old(self).settings(),
            drained_view(drained@) == outstanding_all(old(self)@.sessions),
    {
        let mut clients: Vec<ChildSession> = Vec::new();
        std::mem::swap(&mut clients, &mut self.clients);
        self.tools.clear();
        assert(self@.sessions =~= Seq::empty());
        assert(self@.catalog =~= Seq::empty());
        let ghost sessions = old(self)@.sessions;
        let mut drained: Vec<Drained> = Vec::new();
        for session in it: clients
            invariant
                it.seq() == clients@,
                sessions == sessions_view(clients@),
                sound_sessions(sessions),
                drained.len() == it.index(),
                forall|k: int|
                    0 <= k < it.index() ==> (#[trigger] drained[k]).backend@ == sessions[k].name
                        && pending_view(drained[k].failed@) == sessions[k].pending,
        {
            let mut session = session;
            assert(session@ == sessions[it.index() as int]);
            let backend = session.name().to_owned();
            let failed = session.close();
            drained.push(Drained { backend, failed });
        }
        assert(drained_view(drained@) =~= outstanding_all(sessions));
        drained
    }
}

/// The content of the result of `call_tool`.
pub open spec fn routing_view(r: Result<ToolCall, AppError>) -> RoutingSpec {
    match r {
        Ok(ToolCall::Done(result)) => RoutingSpec::Done { result: result@ },
        Ok(ToolCall::Forwarded { backend, request }) => RoutingSpec::Forwarded {
            backend: backend@,
            id: request.id,
            line: request.line@,
        },
        Err(AppError::Other(m)) => if m@
            == "Missing required 'name' parameter for sanitize_tool_name"@ {
            RoutingSpec::MissingName
        } else {
            RoutingSpec::Other
        },
        Err(AppError::ToolNotFound(name)) => RoutingSpec::NotFound { name: name@ },
        Err(AppError::BackendUnavailable(backend)) => RoutingSpec::Unavailable { backend: backend@ },
        Err(_) => RoutingSpec::Other,
    }
}

/// The content of a list of shut sessions: each backend's name with the
/// requests that were outstanding.
pub open spec fn drained_view(drained: Seq<Drained>) -> Seq<(Seq<char>, Seq<PendingSpec>)> {
    Seq::new(drained.len(), |i: int| (drained[i].backend@, pending_view(drained[i].failed@)))
}

} // verus!
