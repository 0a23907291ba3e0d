//! The session with one backend: the requests that are outstanding, the ids
//! that pair each reply with its request, and the session's life cycle.

use vstd::prelude::*;
use crate::json::{document, lemma_view_parts, maybe_view, parse, parsed_json, render};
use crate::json::{rendered_json, single_line};
use crate::json::{Entry, Json, JsonTree, Member};
use crate::text::decimal;

verus! {

/// Where a session stands in its life.
#[derive(Clone, Copy, Debug, PartialEq, Eq)]
pub enum SessionState {
    /// The process runs and the handshake has not been answered.
    Starting,
    /// The handshake succeeded.
    Ready,
    /// The process runs, and the handshake, the discovery or a deadline has
    /// failed.
    Degraded,
    /// The process is gone.
    Closed,
}

/// What a request asks of the backend.
#[derive(Clone, Copy, Debug, PartialEq, Eq)]
pub enum CallKind {
    Handshake,
    Discovery,
    ToolCall,
}

/// One outstanding request: its id on this session, what it asks, and the
/// id under which its caller waits for the result (`null` where the gateway
/// itself asks).
#[derive(Debug, PartialEq, Eq)]
pub struct PendingCall {
    pub id: u64,
    pub kind: CallKind,
    pub caller: Json,
}

/// The content of a `PendingCall`.
pub struct PendingSpec {
    pub id: u64,
    pub kind: CallKind,
    pub caller: JsonTree,
}

impl View for PendingCall {
    type V = PendingSpec;

    open spec fn view(&self) -> PendingSpec {
        PendingSpec { id: self.id, kind: self.kind, caller: self.caller@ }
    }
}

/// The content of a list of outstanding requests.
pub open spec fn pending_view(calls: Seq<PendingCall>) -> Seq<PendingSpec> {
    Seq::new(calls.len(), |i: int| calls[i]@)
}

/// The state after a request of kind `kind` was answered, with a result
/// (`ok`) or with an error. The handshake decides whether a starting
/// session becomes ready; a failed handshake or discovery degrades it; the
/// answer to a tool call leaves it as it is.
pub open spec fn state_after_answer(state: SessionState, kind: CallKind, ok: bool) -> SessionState {
    match (state, kind, ok) {
        (SessionState::Closed, _, _) => SessionState::Closed,
        (SessionState::Starting, CallKind::Handshake, true) => SessionState::Ready,
        (_, CallKind::Handshake, false) => SessionState::Degraded,
        (_, CallKind::Discovery, false) => SessionState::Degraded,
        _ => state,
    }
}

/// The state after a request ran out of time: degraded, unless the session
/// is closed.
pub open spec fn state_after_deadline(state: SessionState) -> SessionState {
    match state {
        SessionState::Closed => SessionState::Closed,
        _ => SessionState::Degraded,
    }
}

/// The content of a session.
pub struct SessionSpec {
    pub name: Seq<char>,
    pub state: SessionState,
    pub next_id: u64,
    pub pending: Seq<PendingSpec>,
}

impl SessionSpec {
    /// A session that has just been opened: starting, nothing outstanding,
    /// ids from 1.
    pub open spec fn fresh(name: Seq<char>) -> SessionSpec {
        SessionSpec { name, state: SessionState::Starting, next_id: 1, pending: Seq::empty() }
    }

    /// Ids start at 1 and every outstanding request has an id of its own
    /// that was handed out before; a closed session has none outstanding.
    pub open spec fn well_formed(self) -> bool {
        &&& self.next_id >= 1
        &&& (forall|i: int|
            0 <= i < self.pending.len() ==> 1 <= (#[trigger] self.pending[i]).id < self.next_id)
        &&& (forall|i: int, j: int|
            0 <= i < j < self.pending.len() ==> (#[trigger] self.pending[i]).id
                != (#[trigger] self.pending[j]).id)
        &&& (self.state is Closed ==> self.pending.len() == 0)
    }

    /// Whether a request with this id is outstanding.
    pub open spec fn holds(self, id: u64) -> bool {
        exists|i: int| 0 <= i < self.pending.len() && (#[trigger] self.pending[i]).id == id
    }

    /// Where the outstanding request with this id stands.
    pub open spec fn slot(self, id: u64) -> int {
        choose|i: int| 0 <= i < self.pending.len() && (#[trigger] self.pending[i]).id == id
    }

    /// The outstanding request with this id.
    pub open spec fn call(self, id: u64) -> PendingSpec {
        self.pending[self.slot(id)]
    }

    /// Whether a request of this kind may be sent now: ids are left, and the
    /// session is starting for the handshake, ready for the discovery, ready
    /// or degraded for a tool call.
    pub open spec fn may_issue(self, kind: CallKind) -> bool {
        &&& self.next_id < u64::MAX
        &&& match kind {
            CallKind::Handshake => self.state is Starting,
            CallKind::Discovery => self.state is Ready,
            CallKind::ToolCall => self.state is Ready || self.state is Degraded,
        }
    }

    /// The session after a request was sent under the next id.
    pub open spec fn issue(self, kind: CallKind, caller: JsonTree) -> SessionSpec {
        SessionSpec {
            next_id: (self.next_id + 1) as u64,
            pending: self.pending.push(PendingSpec { id: self.next_id, kind, caller }),
            ..self
        }
    }

    /// The session after the outstanding request `id` was answered.
    pub open spec fn answered(self, id: u64, ok: bool) -> SessionSpec {
        SessionSpec {
            state: state_after_answer(self.state, self.call(id).kind, ok),
            pending: self.pending.remove(self.slot(id)),
            ..self
        }
    }

    /// The session after the outstanding request `id` ran out of time.
    pub open spec fn expired(self, id: u64) -> SessionSpec {
        SessionSpec {
            state: state_after_deadline(self.state),
            pending: self.pending.remove(self.slot(id)),
            ..self
        }
    }

    /// The session after its process went away.
    pub open spec fn shut(self) -> SessionSpec {
        SessionSpec { state: SessionState::Closed, pending: Seq::empty(), ..self }
    }

    /// What a message from the backend does to the session, and what the
    /// reader makes of it. A text that is no JSON is dropped, and so is a
    /// message whose id matches no outstanding request; a message that
    /// matches one resolves it, with the message's result or its error.
    pub open spec fn receive(self, message: Option<JsonTree>) -> (SessionSpec, InboundSpec) {
        match message {
            None => (self, InboundSpec::Malformed),
            Some(m) => match reply_id(m) {
                Some(id) => if self.holds(id) {
                    (
                        self.answered(id, reply_outcome(m) is Ok),
                        InboundSpec::Resolved { call: self.call(id), outcome: reply_outcome(m) },
                    )
                } else {
                    (self, InboundSpec::Unmatched)
                },
                None => (self, InboundSpec::Unmatched),
            },
        }
    }
}

/// The id that a message from a backend answers: its member `id`, where
/// that is a plain number.
pub open spec fn reply_id(message: JsonTree) -> Option<u64> {
    match message.member("id"@) {
        Some(id) => id.unsigned(),
        None => None,
    }
}

/// What a message from a backend brings: its member `error` where it has
/// one that is not `null`, else its member `result`, `null` standing for a
/// missing one.
pub open spec fn reply_outcome(message: JsonTree) -> Result<JsonTree, JsonTree> {
    match message.member("error"@) {
        Some(error) => if error == JsonTree::Null {
            Ok(reply_result(message))
        } else {
            Err(error)
        },
        None => Ok(reply_result(message)),
    }
}

/// The member `result` of a message, `null` standing for a missing one.
pub open spec fn reply_result(message: JsonTree) -> JsonTree {
    match message.member("result"@) {
        Some(result) => result,
        None => JsonTree::Null,
    }
}

/// The request that is sent to a backend.
pub open spec fn request_tree(id: u64, method: Seq<char>, params: JsonTree) -> JsonTree {
    JsonTree::Object(
        seq![
            Entry { key: "jsonrpc"@, value: JsonTree::Text("2.0"@) },
            Entry { key: "id"@, value: JsonTree::Number(decimal(id as nat)) },
            Entry { key: "method"@, value: JsonTree::Text(method) },
            Entry { key: "params"@, value: params },
        ],
    )
}

/// The parameters of a request that calls the tool `tool` with `arguments`.
pub open spec fn call_params(tool: Seq<char>, arguments: JsonTree) -> JsonTree {
    JsonTree::Object(
        seq![
            Entry { key: "name"@, value: JsonTree::Text(tool) },
            Entry { key: "arguments"@, value: arguments },
        ],
    )
}

/// What the reader makes of one message from the backend.
#[derive(Debug, PartialEq, Eq)]
pub enum Inbound {
    /// The text is no JSON: it is dropped.
    Malformed,
    /// The message answers no outstanding request: it is dropped.
    Unmatched,
    /// The message answers `call`, with a result or with an error.
    Resolved { call: PendingCall, outcome: Result<Json, Json> },
}

/// The content of an `Inbound`.
pub enum InboundSpec {
    Malformed,
    Unmatched,
    Resolved { call: PendingSpec, outcome: Result<JsonTree, JsonTree> },
}

impl View for Inbound {
    type V = InboundSpec;

    open spec fn view(&self) -> InboundSpec {
        match self {
            Inbound::Malformed => InboundSpec::Malformed,
            Inbound::Unmatched => InboundSpec::Unmatched,
            Inbound::Resolved { call, outcome } => InboundSpec::Resolved {
                call: call@,
                outcome: match outcome {
                    Ok(result) => Ok(result@),
                    Err(error) => Err(error@),
                },
            },
        }
    }
}

/// A request on its way to a backend: its id on the session and the line to
/// write to the backend's input, followed by a line break.
#[derive(Clone, Debug, PartialEq, Eq)]
pub struct Outgoing {
    pub id: u64,
    pub line: String,
}

/// The session with one backend.
#[derive(Debug)]
pub struct ChildSession {
    name: String,
    state: SessionState,
    next_id: u64,
    pending: Vec<PendingCall>,
}

impl View for ChildSession {
    type V = SessionSpec;

    closed spec fn view(&self) -> SessionSpec {
        SessionSpec {
            name: self.name@,
            state: self.state,
            next_id: self.next_id,
            pending: pending_view(self.pending@),
        }
    }
}

fn build_request(id: u64, method: &str, params: Json) -> (line: String)
    ensures
        line@ == rendered_json(request_tree(id, method@, params@)),
        single_line(line@),
{
    let mut members: Vec<Member> = Vec::new();
    members.push(Member { key: "jsonrpc".to_owned(), value: Json::text("2.0") });
    members.push(Member { key: "id".to_owned(), value: Json::from_u64(id) });
    members.push(Member { key: "method".to_owned(), value: Json::text(method) });
    members.push(Member { key: "params".to_owned(), value: params });
    let request = Json::Object(members);
    proof {
        lemma_view_parts(&request);
        assert(request@->Object_0 =~= request_tree(id, method@, params@)->Object_0);
    }
    render(&request)
}

fn build_call_params(tool: &str, arguments: Json) -> (params: Json)
    ensures
        params@ == call_params(tool@, arguments@),
{
    let mut members: Vec<Member> = Vec::new();
    members.push(Member { key: "name".to_owned(), value: Json::text(tool) });
    members.push(Member { key: "arguments".to_owned(), value: arguments });
    let params = Json::Object(members);
    proof {
        lemma_view_parts(&params);
        assert(params@->Object_0 =~= call_params(tool@, arguments@)->Object_0);
    }
    params
}

/// The id that a message answers.
pub fn message_id(message: &Json) -> (r: Option<u64>)
    ensures
        r == reply_id(message@),
{
    match message.get("id") {
        Some(id) => id.as_u64(),
        None => None,
    }
}

/// What a message brings: its error, or its result.
pub fn message_outcome(message: &Json) -> (r: Result<Json, Json>)
    ensures
        match r {
            Ok(result) => reply_outcome(message@) == Ok::<JsonTree, JsonTree>(result@),
            Err(error) => reply_outcome(message@) == Err::<JsonTree, JsonTree>(error@),
        },
{
    match message.get("error") {
        Some(error) => {
            if !error.is_null() {
                return Err(error.duplicate());
            }
        },
        None => {},
    }
    match message.get("result") {
        Some(result) => Ok(result.duplicate()),
        None => Ok(Json::Null),
    }
}

impl ChildSession {
    /// Opens the session with the backend `name`, whose process has just
    /// been started.
    pub fn new(name: &str) -> (session: ChildSession)
        ensures
            session@ == SessionSpec::fresh(name@),
            session@.well_formed(),
    {
        let session = ChildSession {
            name: name.to_owned(),
            state: SessionState::Starting,
            next_id: 1,
            pending: Vec::new(),
        };
        assert(session@.pending =~= Seq::empty());
        session
    }

    /// The backend's name.
    pub fn name(&self) -> (name: &str)
        ensures
            name@ == self@.name,
    {
        self.name.as_str()
    }

    /// Where the session stands in its life.
    pub fn state(&self) -> (state: SessionState)
        ensures
            state == self@.state,
    {
        self.state
    }

    /// How many requests are outstanding.
    pub fn pending_count(&self) -> (n: usize)
        ensures
            n == self@.pending.len(),
    {
        self.pending.len()
    }

    fn find(&self, id: u64) -> (r: Option<usize>)
        requires
            self@.well_formed(),
        ensures
            match r {
                Some(i) => self@.holds(id) && i == self@.slot(id) && i < self.pending.len()
                    && self.pending[i as int].id == id,
                None => !self@.holds(id),
            },
    {
        let mut i: usize = 0;
        while i < self.pending.len()
            invariant
                self@.well_formed(),
                i <= self.pending.len(),
                forall|k: int| 0 <= k < i ==> self@.pending[k].id != id,
            decreases self.pending.len() - i,
        {
            if self.pending[i].id == id {
                proof {
                    lemma_slot_is_unique(self@, id, i as int);
                }
                return Some(i);
            }
            i = i + 1;
        }
        None
    }

    /// Whether a request with this id is outstanding.
    pub fn is_pending(&self, id: u64) -> (r: bool)
        requires
            self@.well_formed(),
        ensures
            r == self@.holds(id),
    {
        self.find(id).is_some()
    }

    fn allowed(&self, kind: CallKind) -> (r: bool)
        ensures
            r == self@.may_issue(kind),
    {
        self.next_id < u64::MAX && match kind {
            CallKind::Handshake => match self.state {
                SessionState::Starting => true,
                _ => false,
            },
            CallKind::Discovery => match self.state {
                SessionState::Ready => true,
                _ => false,
            },
            CallKind::ToolCall => match self.state {
                SessionState::Ready => true,
                SessionState::Degraded => true,
                _ => false,
            },
        }
    }

    fn begin(&mut self, kind: CallKind, caller: Json) -> (id: u64)
        requires
            old(self)@.well_formed(),
            old(self)@.may_issue(kind),
        ensures
            id == old(self)@.next_id,
            final(self)@ == old(self)@.issue(kind, caller@),
            final(self)@.well_formed(),
    {
        let id = self.next_id;
        self.next_id = id + 1;
        self.pending.push(PendingCall { id, kind, caller });
        proof {
            assert(self@.pending =~= old(self)@.issue(kind, caller@).pending);
        }
        id
    }

    /// Sends a request of kind `kind` under the next id, for the caller
    /// that waits under `caller`, where the session takes such a request.
    pub(crate) fn send(&mut self, kind: CallKind, method: &str, params: Json, caller: Json) -> (out:
        Outgoing)
        requires
            old(self)@.well_formed(),
            old(self)@.may_issue(kind),
        ensures
            out.id == old(self)@.next_id,
            out.line@ == rendered_json(request_tree(out.id, method@, params@)),
            single_line(out.line@),
            final(self)@ == old(self)@.issue(kind, caller@),
            final(self)@.well_formed(),
    {
        let id = self.begin(kind, caller);
        let line = build_request(id, method, params);
        Outgoing { id, line }
    }

    /// Sends the handshake: the request `initialize` with no parameters.
    /// Refused (`None`, nothing changes) unless the session is starting.
    pub fn begin_handshake(&mut self) -> (r: Option<Outgoing>)
        requires
            old(self)@.well_formed(),
        ensures
            final(self)@.well_formed(),
            match r {
                Some(out) => {
                    &&& old(self)@.may_issue(CallKind::Handshake)
                    &&& out.id == old(self)@.next_id
                    &&& out.line@ == rendered_json(
                        request_tree(out.id, "initialize"@, JsonTree::Object(Seq::empty())),
                    )
                    &&& final(self)@ == old(self)@.issue(CallKind::Handshake, JsonTree::Null)
                    &&& single_line(out.line@)
                },
                None => !old(self)@.may_issue(CallKind::Handshake) && final(self)@ == old(self)@,
            },
    {
        if !self.allowed(CallKind::Handshake) {
            return None;
        }
        Some(self.send(CallKind::Handshake, "initialize", Json::empty_object(), Json::Null))
    }

    /// Asks the backend for its tools: the request `tools/list` with no
    /// parameters. Refused (`None`, nothing changes) unless the session is
    /// ready.
    pub fn begin_discovery(&mut self) -> (r: Option<Outgoing>)
        requires
            old(self)@.well_formed(),
        ensures
            final(self)@.well_formed(),
            match r {
                Some(out) => {
                    &&& old(self)@.may_issue(CallKind::Discovery)
                    &&& out.id == old(self)@.next_id
                    &&& out.line@ == rendered_json(
                        request_tree(out.id, "tools/list"@, JsonTree::Object(Seq::empty())),
                    )
                    &&& final(self)@ == old(self)@.issue(CallKind::Discovery, JsonTree::Null)
                    &&& single_line(out.line@)
                },
                None => !old(self)@.may_issue(CallKind::Discovery) && final(self)@ == old(self)@,
            },
    {
        if !self.allowed(CallKind::Discovery) {
            return None;
        }
        Some(self.send(CallKind::Discovery, "tools/list", Json::empty_object(), Json::Null))
    }

    /// Calls the backend's tool `tool` with `arguments` for the caller that
    /// waits under `caller`: the request `tools/call` under a fresh id.
    /// Refused (`None`, nothing changes) unless the session is ready or
    /// degraded.
    pub fn begin_call(&mut self, tool: &str, arguments: Json, caller: Json) -> (r: Option<Outgoing>)
        requires
            old(self)@.well_formed(),
        ensures
            final(self)@.well_formed(),
            match r {
                Some(out) => {
                    &&& old(self)@.may_issue(CallKind::ToolCall)
                    &&& out.id == old(self)@.next_id
                    &&& out.line@ == rendered_json(
                        request_tree(out.id, "tools/call"@, call_params(tool@, arguments@)),
                    )
                    &&& final(self)@ == old(self)@.issue(CallKind::ToolCall, caller@)
                    &&& single_line(out.line@)
                },
                None => !old(self)@.may_issue(CallKind::ToolCall) && final(self)@ == old(self)@,
            },
    {
        if !self.allowed(CallKind::ToolCall) {
            return None;
        }
        let params = build_call_params(tool, arguments);
        Some(self.send(CallKind::ToolCall, "tools/call", params, caller))
    }

    fn take(&mut self, i: usize, state: SessionState) -> (call: PendingCall)
        requires
            old(self)@.well_formed(),
            i < old(self)@.pending.len(),
            !(state is Closed),
        ensures
            call@ == old(self)@.pending[i as int],
            final(self)@ == (SessionSpec {
                state,
                pending: old(self)@.pending.remove(i as int),
                ..old(self)@
            }),
            final(self)@.well_formed(),
    {
        let call = self.pending.remove(i);
        self.state = state;
        proof {
            assert(self@.pending =~= old(self)@.pending.remove(i as int));
            lemma_remove_keeps_order(old(self)@, i as int);
        }
        call
    }

    /// Takes in one message from the backend, already read as JSON (`None`
    /// for a line that is no JSON).
    pub fn on_message(&mut self, message: Option<Json>) -> (r: Inbound)
        requires
            old(self)@.well_formed(),
        ensures
            final(self)@.well_formed(),
            (final(self)@, r@) == old(self)@.receive(maybe_view(message)),
    {
        let m = match message {
            Some(m) => m,
            None => {
                return Inbound::Malformed;
            },
        };
        let id = match message_id(&m) {
            Some(id) => id,
            None => {
                return Inbound::Unmatched;
            },
        };
        let i = match self.find(id) {
            Some(i) => i,
            None => {
                return Inbound::Unmatched;
            },
        };
        let outcome = message_outcome(&m);
        let state = next_state(self.state, self.pending[i].kind, outcome.is_ok());
        let call = self.take(i, state);
        Inbound::Resolved { call, outcome }
    }

    /// Takes in one line from the backend's output.
    pub fn on_line(&mut self, line: &str) -> (r: Inbound)
        requires
            old(self)@.well_formed(),
        ensures
            final(self)@.well_formed(),
            (final(self)@, r@) == old(self)@.receive(document(parsed_json(line@))),
    {
        let message = match parse(line) {
            Ok(doc) => Some(doc),
            Err(_) => None,
        };
        self.on_message(message)
    }

    /// The deadline of the request `id` has passed. Where the request is
    /// outstanding it is given up and handed back, and the session
    /// degrades: a reply that comes later matches nothing. Else nothing
    /// changes.
    pub fn on_timeout(&mut self, id: u64) -> (r: Option<PendingCall>)
        requires
            old(self)@.well_formed(),
        ensures
            final(self)@.well_formed(),
            match r {
                Some(call) => {
                    &&& old(self)@.holds(id)
                    &&& call@ == old(self)@.call(id)
                    &&& final(self)@ == old(self)@.expired(id)
                },
                None => !old(self)@.holds(id) && final(self)@ == old(self)@,
            },
            !final(self)@.holds(id),
    {
        match self.find(id) {
            Some(i) => {
                let state = match self.state {
                    SessionState::Closed => SessionState::Closed,
                    _ => SessionState::Degraded,
                };
                let call = self.take(i, state);
                proof {
                    lemma_removed_is_gone(old(self)@, id);
                }
                Some(call)
            },
            None => None,
        }
    }

    /// The backend's process is gone, or is being stopped. Every
    /// outstanding request is handed back, to be failed, and the session is
    /// closed. Closing a closed session hands back nothing.
    pub fn close(&mut self) -> (failed: Vec<PendingCall>)
        requires
            old(self)@.well_formed(),
        ensures
            pending_view(failed@) == old(self)@.pending,
            final(self)@ == old(self)@.shut(),
            final(self)@.well_formed(),
    {
        let mut failed: Vec<PendingCall> = Vec::new();
        std::mem::swap(&mut failed, &mut self.pending);
        self.state = SessionState::Closed;
        proof {
            assert(self@.pending =~= Seq::empty());
        }
        failed
    }
}

fn next_state(state: SessionState, kind: CallKind, ok: bool) -> (r: SessionState)
    ensures
        r == state_after_answer(state, kind, ok),
{
    match state {
        SessionState::Closed => SessionState::Closed,
        SessionState::Starting => match kind {
            CallKind::Handshake => if ok {
                SessionState::Ready
            } else {
                SessionState::Degraded
            },
            CallKind::Discovery => if ok {
                state
            } else {
                SessionState::Degraded
            },
            CallKind::ToolCall => state,
        },
        _ => match kind {
            CallKind::ToolCall => state,
            _ => if ok {
                state
            } else {
                SessionState::Degraded
            },
        },
    }
}

/// An id is outstanding at one place only.
pub proof fn lemma_slot_is_unique(s: SessionSpec, id: u64, i: int)
    requires
        s.well_formed(),
        0 <= i < s.pending.len(),
        s.pending[i].id == id,
    ensures
        s.holds(id),
        s.slot(id) == i,
{
    let j = s.slot(id);
    assert(0 <= j < s.pending.len() && s.pending[j].id == id);
    if j < i {
        assert(s.pending[j].id != s.pending[i].id);
    } else if i < j {
        assert(s.pending[i].id != s.pending[j].id);
    }
}

/// Taking one outstanding request out leaves the others as they were: each
/// with an id of its own that was handed out before.
pub proof fn lemma_remove_keeps_order(s: SessionSpec, at: int)
    requires
        s.well_formed(),
        0 <= at < s.pending.len(),
    ensures
        forall|i: int|
            0 <= i < s.pending.remove(at).len() ==> 1 <= (#[trigger] s.pending.remove(at)[i]).id
                < s.next_id,
        forall|i: int, j: int|
            0 <= i < j < s.pending.remove(at).len() ==> (#[trigger] s.pending.remove(at)[i]).id != (
            #[trigger] s.pending.remove(at)[j]).id,
{
    let rest = s.pending.remove(at);
    assert forall|i: int| 0 <= i < rest.len() implies 1 <= (#[trigger] rest[i]).id < s.next_id by {
        if i < at {
            assert(rest[i] == s.pending[i]);
        } else {
            assert(rest[i] == s.pending[i + 1]);
        }
    }
    assert forall|i: int, j: int| 0 <= i < j < rest.len() implies (#[trigger] rest[i]).id != (
    #[trigger] rest[j]).id by {
        let a = if i < at {
            i
        } else {
            i + 1
        };
        let b = if j < at {
            j
        } else {
            j + 1
        };
        assert(rest[i] == s.pending[a]);
        assert(rest[j] == s.pending[b]);
        assert(s.pending[a].id != s.pending[b].id);
    }
}

/// Once an outstanding request is taken out, no request with its id is
/// outstanding.
pub proof fn lemma_removed_is_gone(s: SessionSpec, id: u64)
    requires
        s.well_formed(),
        s.holds(id),
    ensures
        !s.answered(id, true).holds(id),
        !s.answered(id, false).holds(id),
        !s.expired(id).holds(id),
{
    let at = s.slot(id);
    let rest = s.pending.remove(at);
    assert forall|i: int| 0 <= i < rest.len() implies rest[i].id != id by {
        if i < at {
            assert(rest[i] == s.pending[i]);
        } else {
            assert(rest[i] == s.pending[i + 1]);
        }
    }
}

/// Sending a request keeps the session well formed and makes the request
/// outstanding, at the end of the list, under the id that was next.
pub proof fn lemma_issue(s: SessionSpec, kind: CallKind, caller: JsonTree)
    requires
        s.well_formed(),
        s.may_issue(kind),
    ensures
        s.issue(kind, caller).well_formed(),
        s.issue(kind, caller).holds(s.next_id),
        s.issue(kind, caller).slot(s.next_id) == s.pending.len(),
        s.issue(kind, caller).call(s.next_id) == (PendingSpec { id: s.next_id, kind, caller }),
        !s.holds(s.next_id),
        forall|id: u64| s.holds(id) ==> s.issue(kind, caller).holds(id),
{
    let t = s.issue(kind, caller);
    let n = s.pending.len() as int;
    assert(t.pending[n].id == s.next_id);
    assert forall|i: int, j: int| 0 <= i < j < t.pending.len() implies (#[trigger] t.pending[i]).id
        != (#[trigger] t.pending[j]).id by {
        if j < n {
            assert(t.pending[i] == s.pending[i]);
            assert(t.pending[j] == s.pending[j]);
        } else {
            assert(t.pending[i] == s.pending[i]);
        }
    }
    assert forall|i: int| 0 <= i < t.pending.len() implies 1 <= (#[trigger] t.pending[i]).id
        < t.next_id by {
        if i < n {
            assert(t.pending[i] == s.pending[i]);
        }
    }
    lemma_slot_is_unique(t, s.next_id, n);
    assert forall|id: u64| s.holds(id) implies t.holds(id) by {
        let i = s.slot(id);
        assert(t.pending[i] == s.pending[i]);
    }
}

/// Replies are paired with requests by id, not by the order in which they
/// come. Of two requests sent one after the other, the reply to the second
/// may come first: each reply still resolves its own request, with its own
/// content, and afterwards neither request is outstanding.
pub proof fn lemma_replies_pair_by_id(
    s: SessionSpec,
    first_kind: CallKind,
    first_caller: JsonTree,
    second_kind: CallKind,
    second_caller: JsonTree,
    first_reply: JsonTree,
    second_reply: JsonTree,
)
    requires
        s.well_formed(),
        s.may_issue(first_kind),
        s.issue(first_kind, first_caller).may_issue(second_kind),
        reply_id(first_reply) == Some(s.next_id),
        reply_id(second_reply) == Some((s.next_id + 1) as u64),
    ensures
        ({
            let first = PendingSpec { id: s.next_id, kind: first_kind, caller: first_caller };
            let second = PendingSpec {
                id: (s.next_id + 1) as u64,
                kind: second_kind,
                caller: second_caller,
            };
            let sent = s.issue(first_kind, first_caller).issue(second_kind, second_caller);
            let early = sent.receive(Some(second_reply));
            let late = early.0.receive(Some(first_reply));
            &&& early.1 == (InboundSpec::Resolved {
                call: second,
                outcome: reply_outcome(second_reply),
            })
            &&& late.1 == (InboundSpec::Resolved { call: first, outcome: reply_outcome(first_reply) })
            &&& late.0.pending == s.pending
            &&& late.0.well_formed()
        }),
{
    let id1 = s.next_id;
    let id2 = (s.next_id + 1) as u64;
    let one = s.issue(first_kind, first_caller);
    lemma_issue(s, first_kind, first_caller);
    let sent = one.issue(second_kind, second_caller);
    lemma_issue(one, second_kind, second_caller);
    let n = s.pending.len() as int;
    assert(sent.holds(id2));
    assert(sent.slot(id2) == n + 1);
    let early = sent.receive(Some(second_reply));
    assert(early.0.pending =~= one.pending);
    lemma_remove_keeps_order(sent, n + 1);
    assert(early.0.well_formed());
    lemma_slot_is_unique(early.0, id1, n);
    let late = early.0.receive(Some(first_reply));
    assert(late.0.pending =~= s.pending);
    lemma_remove_keeps_order(early.0, n);
}

/// A request is resolved once: after the reply that resolved it, or after
/// its deadline, a message with its id matches nothing and changes nothing.
pub proof fn lemma_resolved_once(s: SessionSpec, id: u64, message: JsonTree)
    requires
        s.well_formed(),
        s.holds(id),
        reply_id(message) == Some(id),
    ensures
        s.receive(Some(message)).0.receive(Some(message)) == (
            s.receive(Some(message)).0,
            InboundSpec::Unmatched,
        ),
        s.expired(id).receive(Some(message)) == (s.expired(id), InboundSpec::Unmatched),
{
    lemma_removed_is_gone(s, id);
}

/// Once the session is shut nothing is outstanding, and no message
/// resolves anything.
pub proof fn lemma_shut_drains(s: SessionSpec, message: Option<JsonTree>)
    ensures
        s.shut().well_formed() <== s.well_formed(),
        s.shut().pending.len() == 0,
        forall|id: u64| !s.shut().holds(id),
        !(s.shut().receive(message).1 is Resolved),
        s.shut().receive(message).0 == s.shut(),
        s.shut().shut() == s.shut(),
{
}

/// How far a session has come in its life.
pub open spec fn age(state: SessionState) -> nat {
    match state {
        SessionState::Starting => 0,
        SessionState::Ready => 1,
        SessionState::Degraded => 2,
        SessionState::Closed => 3,
    }
}

/// A session's life runs one way, from starting to ready to degraded to
/// closed: nothing that happens to it takes it back.
pub proof fn lemma_life_runs_one_way(
    s: SessionSpec,
    kind: CallKind,
    caller: JsonTree,
    id: u64,
    ok: bool,
    message: Option<JsonTree>,
)
    ensures
        age(s.issue(kind, caller).state) == age(s.state),
        age(s.answered(id, ok).state) >= age(s.state),
        age(s.expired(id).state) >= age(s.state),
        age(s.receive(message).0.state) >= age(s.state),
        age(s.shut().state) == 3,
        s.state is Closed ==> s.answered(id, ok).state is Closed && s.expired(id).state is Closed
            && s.receive(message).0.state is Closed,
{
}

} // verus!
