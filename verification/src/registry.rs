//! The registry as a mathematical object: what the catalog and the
//! sessions hold, what registering, routing and closing do to them, and
//! the laws that follow.

use vstd::prelude::*;
use crate::aggregator::{ContentSpec, MappingSpec, ResultSpec, StartSpec, ToolSpec};
use crate::json::{rendered_json, Entry, JsonTree};
use crate::naming::{lemma_prefix_separates_backends, prefixed, sanitized};
use crate::session::{call_params, lemma_issue, request_tree};
use crate::session::{CallKind, InboundSpec, PendingSpec, SessionSpec};

verus! {

/// The catalog entry for the tool `tool` of the backend `backend`.
pub open spec fn mapping_for(backend: Seq<char>, tool: ToolSpec) -> MappingSpec {
    MappingSpec { prefixed_name: prefixed(backend, tool.name), backend, tool }
}

/// Whether the catalog lists a tool under this name.
pub open spec fn lists(catalog: Seq<MappingSpec>, name: Seq<char>) -> bool {
    exists|i: int| 0 <= i < catalog.len() && (#[trigger] catalog[i]).prefixed_name == name
}

/// Where the catalog lists the tool of this name.
pub open spec fn place(catalog: Seq<MappingSpec>, name: Seq<char>) -> int {
    choose|i: int| 0 <= i < catalog.len() && (#[trigger] catalog[i]).prefixed_name == name
}

/// The catalog with one more entry. An entry of the same prefixed name
/// gives way to the new one, at its place; else the new one comes last.
pub open spec fn listed(catalog: Seq<MappingSpec>, entry: MappingSpec) -> Seq<MappingSpec> {
    if lists(catalog, entry.prefixed_name) {
        catalog.update(place(catalog, entry.prefixed_name), entry)
    } else {
        catalog.push(entry)
    }
}

/// The catalog after the first `count` of a backend's tools were listed, in
/// their order.
pub open spec fn listed_all(
    catalog: Seq<MappingSpec>,
    backend: Seq<char>,
    tools: Seq<ToolSpec>,
    count: int,
) -> Seq<MappingSpec>
    decreases count,
{
    if count <= 0 {
        catalog
    } else {
        listed(listed_all(catalog, backend, tools, count - 1), mapping_for(backend, tools[count - 1]))
    }
}

/// The catalog without the tools of one backend; the others keep their
/// order.
pub open spec fn unlisted(catalog: Seq<MappingSpec>, backend: Seq<char>) -> Seq<MappingSpec>
    decreases catalog.len(),
{
    if catalog.len() == 0 {
        catalog
    } else if catalog.last().backend == backend {
        unlisted(catalog.drop_last(), backend)
    } else {
        unlisted(catalog.drop_last(), backend).push(catalog.last())
    }
}

/// Whether there is a session of that name.
pub open spec fn serves(sessions: Seq<SessionSpec>, name: Seq<char>) -> bool {
    exists|i: int| 0 <= i < sessions.len() && (#[trigger] sessions[i]).name == name
}

/// Where the session of that name stands.
pub open spec fn seat(sessions: Seq<SessionSpec>, name: Seq<char>) -> int {
    choose|i: int| 0 <= i < sessions.len() && (#[trigger] sessions[i]).name == name
}

/// The sessions without the one of that name; the others keep their order.
pub open spec fn dropped(sessions: Seq<SessionSpec>, name: Seq<char>) -> Seq<SessionSpec> {
    if serves(sessions, name) {
        sessions.remove(seat(sessions, name))
    } else {
        sessions
    }
}

/// No two entries of the catalog have the same prefixed name.
pub open spec fn distinct_names(catalog: Seq<MappingSpec>) -> bool {
    forall|i: int, j: int|
        0 <= i < j < catalog.len() ==> (#[trigger] catalog[i]).prefixed_name != (
        #[trigger] catalog[j]).prefixed_name
}

/// Every entry of the catalog stands under the prefixed name that its
/// backend and its tool's name give.
pub open spec fn faithful(catalog: Seq<MappingSpec>) -> bool {
    forall|i: int|
        0 <= i < catalog.len() ==> (#[trigger] catalog[i]).prefixed_name == prefixed(
            catalog[i].backend,
            catalog[i].tool.name,
        )
}

/// Every entry of the catalog belongs to a backend that has a session.
pub open spec fn all_served(catalog: Seq<MappingSpec>, sessions: Seq<SessionSpec>) -> bool {
    forall|i: int| 0 <= i < catalog.len() ==> serves(sessions, (#[trigger] catalog[i]).backend)
}

/// No two sessions have the same name.
pub open spec fn distinct_sessions(sessions: Seq<SessionSpec>) -> bool {
    forall|i: int, j: int|
        0 <= i < j < sessions.len() ==> (#[trigger] sessions[i]).name != (#[trigger] sessions[j]).name
}

/// Every session is well formed.
pub open spec fn sound_sessions(sessions: Seq<SessionSpec>) -> bool {
    forall|i: int| 0 <= i < sessions.len() ==> (#[trigger] sessions[i]).well_formed()
}

/// Whether one of the backends came up.
pub open spec fn any_started(starts: Seq<StartSpec>) -> bool {
    exists|i: int| 0 <= i < starts.len() && (#[trigger] starts[i]) is Started
}

/// The content of the registry: its sessions and its catalog, each in the
/// order of arrival.
pub struct AggregatorSpec {
    pub sessions: Seq<SessionSpec>,
    pub catalog: Seq<MappingSpec>,
}

impl AggregatorSpec {
    /// The registry with no session and no tool.
    pub open spec fn empty() -> AggregatorSpec {
        AggregatorSpec { sessions: Seq::empty(), catalog: Seq::empty() }
    }

    /// Every session is well formed and has a name of its own; every
    /// catalog entry has a prefixed name of its own, which is the one that
    /// its backend and its tool's name give, and its backend has a session.
    pub open spec fn well_formed(self) -> bool {
        &&& sound_sessions(self.sessions)
        &&& distinct_sessions(self.sessions)
        &&& distinct_names(self.catalog)
        &&& faithful(self.catalog)
        &&& all_served(self.catalog, self.sessions)
    }

    /// The catalog entry under a prefixed name.
    pub open spec fn entry(self, name: Seq<char>) -> MappingSpec {
        self.catalog[place(self.catalog, name)]
    }

    /// The session of a backend.
    pub open spec fn session(self, name: Seq<char>) -> SessionSpec {
        self.sessions[seat(self.sessions, name)]
    }

    /// The registry without a backend: without its session and without its
    /// tools.
    pub open spec fn without(self, backend: Seq<char>) -> AggregatorSpec {
        AggregatorSpec {
            sessions: dropped(self.sessions, backend),
            catalog: unlisted(self.catalog, backend),
        }
    }

    /// The registry after a backend was taken in. A backend of the same
    /// name gives way, with its tools; the new session comes last, and the
    /// tools are listed in their order.
    pub open spec fn register(self, session: SessionSpec, tools: Seq<ToolSpec>) -> AggregatorSpec {
        AggregatorSpec {
            sessions: dropped(self.sessions, session.name).push(session),
            catalog: listed_all(
                unlisted(self.catalog, session.name),
                session.name,
                tools,
                tools.len() as int,
            ),
        }
    }

    /// The registry after the first `count` outcomes were taken in: each
    /// backend that came up is registered, each that failed is passed over.
    pub open spec fn started(self, starts: Seq<StartSpec>, count: int) -> AggregatorSpec
        decreases count,
    {
        if count <= 0 {
            self
        } else {
            let before = self.started(starts, count - 1);
            match starts[count - 1] {
                StartSpec::Started { session, tools } => before.register(session, tools),
                StartSpec::Failed { .. } => before,
            }
        }
    }

    /// The session of `backend` replaced by `session`.
    pub open spec fn with_session(self, backend: Seq<char>, session: SessionSpec) -> AggregatorSpec {
        AggregatorSpec {
            sessions: self.sessions.update(seat(self.sessions, backend), session),
            ..self
        }
    }

    /// Where a call of the tool `name` with `arguments` goes, and what it
    /// does to the registry.
    pub open spec fn route(self, name: Seq<char>, arguments: JsonTree, caller: JsonTree) -> (
        AggregatorSpec,
        RoutingSpec,
    ) {
        if name == builtin_name() {
            match arguments.text_member("name"@) {
                Some(text) => (self, RoutingSpec::Done { result: builtin_result(text) }),
                None => (self, RoutingSpec::MissingName),
            }
        } else if !lists(self.catalog, name) {
            (self, RoutingSpec::NotFound { name })
        } else {
            let entry = self.entry(name);
            let session = self.session(entry.backend);
            if serves(self.sessions, entry.backend) && session.may_issue(CallKind::ToolCall) {
                (
                    self.with_session(entry.backend, session.issue(CallKind::ToolCall, caller)),
                    RoutingSpec::Forwarded {
                        backend: entry.backend,
                        id: session.next_id,
                        line: rendered_json(
                            request_tree(
                                session.next_id,
                                "tools/call"@,
                                call_params(entry.tool.name, arguments),
                            ),
                        ),
                    },
                )
            } else {
                (self, RoutingSpec::Unavailable { backend: entry.backend })
            }
        }
    }

    /// What a message from the backend `backend` does to the registry, and
    /// what the reader makes of it. Only the backend's own session is
    /// touched; a message from a backend without a session is dropped.
    pub open spec fn receive(self, backend: Seq<char>, message: Option<JsonTree>) -> (
        AggregatorSpec,
        InboundSpec,
    ) {
        if serves(self.sessions, backend) {
            let got = self.session(backend).receive(message);
            (self.with_session(backend, got.0), got.1)
        } else {
            (self, InboundSpec::Unmatched)
        }
    }

    /// The registry after the request `id` to `backend` ran out of time.
    pub open spec fn expired(self, backend: Seq<char>, id: u64) -> AggregatorSpec {
        if serves(self.sessions, backend) && self.session(backend).holds(id) {
            self.with_session(backend, self.session(backend).expired(id))
        } else {
            self
        }
    }

    /// The requests that are outstanding at `backend`.
    pub open spec fn outstanding(self, backend: Seq<char>) -> Seq<PendingSpec> {
        if serves(self.sessions, backend) {
            self.session(backend).pending
        } else {
            Seq::empty()
        }
    }
}

/// The content of what a call of a tool leads to.
pub enum RoutingSpec {
    /// The gateway has answered the call itself.
    Done { result: ResultSpec },
    /// The call is on its way to `backend`, under the id `id`, as `line`.
    Forwarded { backend: Seq<char>, id: u64, line: Seq<char> },
    /// The gateway's own tool was called without the argument `name`.
    MissingName,
    /// The catalog lists no tool of that name.
    NotFound { name: Seq<char> },
    /// The backend that owns the tool takes no calls.
    Unavailable { backend: Seq<char> },
    /// Any other failure; calling a tool gives none.
    Other,
}

/// Each session's name with the requests that are outstanding on it.
pub open spec fn outstanding_all(sessions: Seq<SessionSpec>) -> Seq<(Seq<char>, Seq<PendingSpec>)> {
    Seq::new(sessions.len(), |i: int| (sessions[i].name, sessions[i].pending))
}

/// What the gateway's own tool is called.
pub open spec fn builtin_name() -> Seq<char> {
    "sanitize_tool_name"@
}

/// The schema of the arguments of the gateway's own tool: an object with
/// the one required string `name`.
pub open spec fn builtin_schema() -> JsonTree {
    JsonTree::Object(
        seq![
            Entry { key: "type"@, value: JsonTree::Text("object"@) },
            Entry {
                key: "properties"@,
                value: JsonTree::Object(
                    seq![
                        Entry {
                            key: "name"@,
                            value: JsonTree::Object(
                                seq![
                                    Entry { key: "type"@, value: JsonTree::Text("string"@) },
                                    Entry {
                                        key: "description"@,
                                        value: JsonTree::Text("The tool name to sanitize"@),
                                    },
                                ],
                            ),
                        },
                    ],
                ),
            },
            Entry { key: "required"@, value: JsonTree::Array(seq![JsonTree::Text("name"@)]) },
        ],
    )
}

/// The gateway's own tool, which normalises a tool name.
pub open spec fn builtin_tool() -> ToolSpec {
    ToolSpec {
        name: builtin_name(),
        description: "Sanitizes a tool name by replacing dashes with underscores"@,
        input_schema: builtin_schema(),
    }
}

/// A catalog entry as callers see it: under its prefixed name, with the
/// description and the schema that the backend gave.
pub open spec fn shown(entry: MappingSpec) -> ToolSpec {
    ToolSpec {
        name: entry.prefixed_name,
        description: entry.tool.description,
        input_schema: entry.tool.input_schema,
    }
}

/// What the gateway lists: the catalog's entries in their order, then the
/// gateway's own tool.
pub open spec fn listing(catalog: Seq<MappingSpec>) -> Seq<ToolSpec> {
    Seq::new(catalog.len(), |i: int| shown(catalog[i])).push(builtin_tool())
}

/// One item of content for a value: text for a string, data for anything
/// else.
pub open spec fn content_of(value: JsonTree) -> ContentSpec {
    match value {
        JsonTree::Text(text) => ContentSpec::Text { text },
        _ => ContentSpec::Json { json: value },
    }
}

/// What a backend's answer to a call becomes. A result is handed on
/// unchanged, as the one item of content. An error becomes a result that is
/// marked as failed: its content is the error's message, or the error
/// itself where it has none, and the whole error goes along beside it.
pub open spec fn translated(outcome: Result<JsonTree, JsonTree>) -> ResultSpec {
    match outcome {
        Ok(result) => ResultSpec { content: seq![content_of(result)], is_error: None, meta: None },
        Err(error) => ResultSpec {
            content: seq![
                content_of(
                    match error.member("message"@) {
                        Some(message) => message,
                        None => error,
                    },
                ),
            ],
            is_error: Some(true),
            meta: Some(error),
        },
    }
}

/// The result of the gateway's own tool: the normalised name, as text.
pub open spec fn builtin_result(name: Seq<char>) -> ResultSpec {
    ResultSpec {
        content: seq![ContentSpec::Text { text: sanitized(name) }],
        is_error: None,
        meta: None,
    }
}

/// A prefixed name stands at one place of the catalog only.
pub proof fn lemma_place_is_unique(catalog: Seq<MappingSpec>, name: Seq<char>, i: int)
    requires
        distinct_names(catalog),
        0 <= i < catalog.len(),
        catalog[i].prefixed_name == name,
    ensures
        lists(catalog, name),
        place(catalog, name) == i,
{
    let j = place(catalog, name);
    assert(0 <= j < catalog.len() && catalog[j].prefixed_name == name);
    if j < i {
        assert(catalog[j].prefixed_name != catalog[i].prefixed_name);
    } else if i < j {
        assert(catalog[i].prefixed_name != catalog[j].prefixed_name);
    }
}

/// A backend's name stands at one place of the sessions only.
pub proof fn lemma_seat_is_unique(sessions: Seq<SessionSpec>, name: Seq<char>, i: int)
    requires
        distinct_sessions(sessions),
        0 <= i < sessions.len(),
        sessions[i].name == name,
    ensures
        serves(sessions, name),
        seat(sessions, name) == i,
{
    let j = seat(sessions, name);
    assert(0 <= j < sessions.len() && sessions[j].name == name);
    if j < i {
        assert(sessions[j].name != sessions[i].name);
    } else if i < j {
        assert(sessions[i].name != sessions[j].name);
    }
}

/// Listing an entry puts it under its prefixed name and leaves every other
/// name as it was.
pub proof fn lemma_listed(catalog: Seq<MappingSpec>, entry: MappingSpec)
    requires
        distinct_names(catalog),
    ensures
        distinct_names(listed(catalog, entry)),
        lists(listed(catalog, entry), entry.prefixed_name),
        listed(catalog, entry)[place(listed(catalog, entry), entry.prefixed_name)] == entry,
        forall|name: Seq<char>|
            name != entry.prefixed_name ==> (lists(listed(catalog, entry), name) <==> lists(
                catalog,
                name,
            )),
        forall|name: Seq<char>|
            name != entry.prefixed_name && lists(catalog, name) ==> listed(catalog, entry)[place(
                listed(catalog, entry),
                name,
            )] == catalog[place(catalog, name)],
        forall|name: Seq<char>| lists(catalog, name) ==> lists(listed(catalog, entry), name),
        forall|i: int|
            0 <= i < listed(catalog, entry).len() ==> (#[trigger] listed(catalog, entry)[i]) == entry
                || (exists|j: int| 0 <= j < catalog.len() && catalog[j] == listed(catalog, entry)[i]),
{
    let after = listed(catalog, entry);
    let at = if lists(catalog, entry.prefixed_name) {
        place(catalog, entry.prefixed_name)
    } else {
        catalog.len() as int
    };
    assert(after.len() > at && after[at] == entry);
    assert forall|i: int| 0 <= i < after.len() && i != at implies after[i] == catalog[i]
        && catalog[i].prefixed_name != entry.prefixed_name by {
        if lists(catalog, entry.prefixed_name) {
            if i < at {
                assert(catalog[i].prefixed_name != catalog[at].prefixed_name);
            } else {
                assert(catalog[at].prefixed_name != catalog[i].prefixed_name);
            }
        } else {
            assert(!(catalog[i].prefixed_name == entry.prefixed_name));
        }
    }
    assert forall|i: int, j: int| 0 <= i < j < after.len() implies (#[trigger] after[i]).prefixed_name
        != (#[trigger] after[j]).prefixed_name by {
        if i != at && j != at {
            assert(catalog[i].prefixed_name != catalog[j].prefixed_name);
        }
    }
    lemma_place_is_unique(after, entry.prefixed_name, at);
    assert forall|name: Seq<char>| name != entry.prefixed_name && lists(after, name) implies lists(
        catalog,
        name,
    ) by {
        let i = place(after, name);
        assert(after[i].prefixed_name == name);
        assert(i != at);
        assert(catalog[i].prefixed_name == name);
    }
    assert forall|name: Seq<char>| name != entry.prefixed_name && lists(catalog, name) implies lists(
        after,
        name,
    ) && after[place(after, name)] == catalog[place(catalog, name)] by {
        let i = place(catalog, name);
        assert(catalog[i].prefixed_name == name);
        assert(i != at);
        assert(after[i].prefixed_name == name);
        lemma_place_is_unique(after, name, i);
    }
    assert forall|i: int| 0 <= i < after.len() implies (#[trigger] after[i]) == entry || (exists|
        j: int,
    |
        0 <= j < catalog.len() && catalog[j] == after[i]) by {
        if i != at {
            assert(catalog[i] == after[i]);
        }
    }
}

/// Listing a backend's tools keeps what the catalog promises, and puts
/// every one of the tools under its prefixed name.
pub proof fn lemma_listed_all(
    catalog: Seq<MappingSpec>,
    sessions: Seq<SessionSpec>,
    backend: Seq<char>,
    tools: Seq<ToolSpec>,
    count: int,
)
    requires
        distinct_names(catalog),
        faithful(catalog),
        all_served(catalog, sessions),
        serves(sessions, backend),
        0 <= count <= tools.len(),
    ensures
        distinct_names(listed_all(catalog, backend, tools, count)),
        faithful(listed_all(catalog, backend, tools, count)),
        all_served(listed_all(catalog, backend, tools, count), sessions),
        forall|name: Seq<char>|
            lists(catalog, name) ==> lists(listed_all(catalog, backend, tools, count), name),
        forall|k: int|
            0 <= k < count ==> lists(
                listed_all(catalog, backend, tools, count),
                prefixed(backend, (#[trigger] tools[k]).name),
            ),
    decreases count,
{
    if count > 0 {
        let before = listed_all(catalog, backend, tools, count - 1);
        let entry = mapping_for(backend, tools[count - 1]);
        lemma_listed_all(catalog, sessions, backend, tools, count - 1);
        lemma_listed(before, entry);
        let after = listed(before, entry);
        assert forall|i: int| 0 <= i < after.len() implies (#[trigger] after[i]).prefixed_name
            == prefixed(after[i].backend, after[i].tool.name) && serves(sessions, after[i].backend) by {
            if after[i] != entry {
                let j = choose|j: int| 0 <= j < before.len() && before[j] == after[i];
                assert(before[j].prefixed_name == prefixed(before[j].backend, before[j].tool.name));
            }
        }
        assert forall|k: int| 0 <= k < count implies lists(
            after,
            prefixed(backend, (#[trigger] tools[k]).name),
        ) by {
            if k < count - 1 {
                assert(lists(before, prefixed(backend, tools[k].name)));
            }
        }
    }
}

/// Taking a backend's tools out leaves every entry of another backend in
/// the catalog.
pub proof fn lemma_unlisted_keeps(catalog: Seq<MappingSpec>, backend: Seq<char>, at: int)
    requires
        0 <= at < catalog.len(),
        catalog[at].backend != backend,
    ensures
        exists|i: int|
            0 <= i < unlisted(catalog, backend).len() && unlisted(catalog, backend)[i]
                == catalog[at],
    decreases catalog.len(),
{
    let front = catalog.drop_last();
    let kept = unlisted(front, backend);
    let after = unlisted(catalog, backend);
    if at < front.len() {
        lemma_unlisted_keeps(front, backend, at);
        let i = choose|i: int| 0 <= i < kept.len() && kept[i] == front[at];
        assert(after[i] == catalog[at]);
    } else {
        assert(after[after.len() - 1] == catalog[at]);
    }
}

/// Taking a backend's tools out leaves entries of the others only, each as
/// it was, and nothing of the backend.
pub proof fn lemma_unlisted(catalog: Seq<MappingSpec>, backend: Seq<char>)
    ensures
        forall|i: int|
            0 <= i < unlisted(catalog, backend).len() ==> (#[trigger] unlisted(catalog, backend)[i]).backend
                != backend && (exists|j: int|
                0 <= j < catalog.len() && catalog[j] == unlisted(catalog, backend)[i]),
        distinct_names(catalog) ==> distinct_names(unlisted(catalog, backend)),
        faithful(catalog) ==> faithful(unlisted(catalog, backend)),
        unlisted(catalog, backend).len() <= catalog.len(),
    decreases catalog.len(),
{
    if catalog.len() > 0 {
        let front = catalog.drop_last();
        let last = catalog.last();
        lemma_unlisted(front, backend);
        let kept = unlisted(front, backend);
        let after = unlisted(catalog, backend);
        assert forall|i: int| 0 <= i < after.len() implies (#[trigger] after[i]).backend != backend && (
        exists|j: int| 0 <= j < catalog.len() && catalog[j] == after[i]) by {
            if i < kept.len() {
                assert(after[i] == kept[i]);
                let j = choose|j: int| 0 <= j < front.len() && front[j] == kept[i];
                assert(catalog[j] == after[i]);
            } else {
                assert(catalog[catalog.len() - 1] == after[i]);
            }
        }
        if distinct_names(catalog) {
            assert(distinct_names(front)) by {
                assert forall|i: int, j: int| 0 <= i < j < front.len() implies (
                #[trigger] front[i]).prefixed_name != (#[trigger] front[j]).prefixed_name by {
                    assert(catalog[i].prefixed_name != catalog[j].prefixed_name);
                }
            }
            assert forall|i: int, j: int| 0 <= i < j < after.len() implies (
            #[trigger] after[i]).prefixed_name != (#[trigger] after[j]).prefixed_name by {
                if j < kept.len() {
                    assert(kept[i].prefixed_name != kept[j].prefixed_name);
                } else {
                    let k = choose|k: int| 0 <= k < front.len() && front[k] == kept[i];
                    assert(catalog[k].prefixed_name != catalog[catalog.len() - 1].prefixed_name);
                }
            }
        }
        if faithful(catalog) {
            assert(faithful(front)) by {
                assert forall|i: int| 0 <= i < front.len() implies (
                #[trigger] front[i]).prefixed_name == prefixed(
                    front[i].backend,
                    front[i].tool.name,
                ) by {
                    assert(catalog[i].prefixed_name == prefixed(
                        catalog[i].backend,
                        catalog[i].tool.name,
                    ));
                }
            }
            assert forall|i: int| 0 <= i < after.len() implies (#[trigger] after[i]).prefixed_name
                == prefixed(after[i].backend, after[i].tool.name) by {
                if i < kept.len() {
                    assert(kept[i].prefixed_name == prefixed(kept[i].backend, kept[i].tool.name));
                } else {
                    assert(catalog[catalog.len() - 1].prefixed_name == prefixed(
                        catalog[catalog.len() - 1].backend,
                        catalog[catalog.len() - 1].tool.name,
                    ));
                }
            }
        }
    }
}

/// Taking a session out leaves the others, each under its name.
pub proof fn lemma_dropped(sessions: Seq<SessionSpec>, name: Seq<char>)
    requires
        distinct_sessions(sessions),
    ensures
        distinct_sessions(dropped(sessions, name)),
        !serves(dropped(sessions, name), name),
        sound_sessions(sessions) ==> sound_sessions(dropped(sessions, name)),
        forall|other: Seq<char>|
            other != name ==> (serves(dropped(sessions, name), other) <==> serves(sessions, other)),
        forall|other: Seq<char>|
            other != name && serves(sessions, other) ==> dropped(sessions, name)[seat(
                dropped(sessions, name),
                other,
            )] == sessions[seat(sessions, other)],
{
    let after = dropped(sessions, name);
    if serves(sessions, name) {
        let at = seat(sessions, name);
        assert forall|i: int| 0 <= i < after.len() implies (#[trigger] after[i]) == sessions[if i
            < at {
            i
        } else {
            i + 1
        }] by {}
        assert forall|i: int, j: int| 0 <= i < j < after.len() implies (#[trigger] after[i]).name
            != (#[trigger] after[j]).name by {
            let a = if i < at {
                i
            } else {
                i + 1
            };
            let b = if j < at {
                j
            } else {
                j + 1
            };
            assert(sessions[a].name != sessions[b].name);
        }
        assert forall|i: int| 0 <= i < after.len() implies (#[trigger] after[i]).name != name by {
            let a = if i < at {
                i
            } else {
                i + 1
            };
            if a < at {
                assert(sessions[a].name != sessions[at].name);
            } else {
                assert(sessions[at].name != sessions[a].name);
            }
        }
        if sound_sessions(sessions) {
            assert forall|i: int| 0 <= i < after.len() implies (#[trigger] after[i]).well_formed() by {
                let a = if i < at {
                    i
                } else {
                    i + 1
                };
                assert(sessions[a].well_formed());
            }
        }
        assert forall|other: Seq<char>| other != name && serves(sessions, other) implies serves(
            after,
            other,
        ) && after[seat(after, other)] == sessions[seat(sessions, other)] by {
            let a = seat(sessions, other);
            assert(sessions[a].name == other);
            let i = if a < at {
                a
            } else {
                a - 1
            };
            assert(after[i] == sessions[a]);
            lemma_seat_is_unique(after, other, i);
        }
        assert forall|other: Seq<char>| other != name && serves(after, other) implies serves(
            sessions,
            other,
        ) by {
            let i = seat(after, other);
            assert(after[i].name == other);
            let a = if i < at {
                i
            } else {
                i + 1
            };
            assert(sessions[a].name == other);
        }
    } else {
        assert forall|i: int| 0 <= i < after.len() implies (#[trigger] after[i]).name != name by {}
    }
}

/// Replacing a backend's session by one of the same name keeps the
/// registry well formed.
pub proof fn lemma_with_session(a: AggregatorSpec, backend: Seq<char>, session: SessionSpec)
    requires
        a.well_formed(),
        serves(a.sessions, backend),
        session.well_formed(),
        session.name == backend,
    ensures
        a.with_session(backend, session).well_formed(),
        serves(a.with_session(backend, session).sessions, backend),
        a.with_session(backend, session).session(backend) == session,
        a.with_session(backend, session).catalog == a.catalog,
{
    let at = seat(a.sessions, backend);
    let after = a.with_session(backend, session);
    assert(after.sessions[at] == session);
    assert forall|i: int| 0 <= i < after.sessions.len() implies (#[trigger] after.sessions[i]).name
        == a.sessions[i].name && after.sessions[i].well_formed() by {
        if i != at {
            assert(after.sessions[i] == a.sessions[i]);
        }
    }
    assert forall|i: int, j: int| 0 <= i < j < after.sessions.len() implies (
    #[trigger] after.sessions[i]).name != (#[trigger] after.sessions[j]).name by {
        assert(a.sessions[i].name != a.sessions[j].name);
    }
    lemma_seat_is_unique(after.sessions, backend, at);
    assert forall|i: int| 0 <= i < after.catalog.len() implies serves(
        after.sessions,
        (#[trigger] after.catalog[i]).backend,
    ) by {
        let k = seat(a.sessions, a.catalog[i].backend);
        assert(after.sessions[k].name == a.sessions[k].name);
    }
}

/// Taking a backend out keeps the registry well formed, and leaves neither
/// its session nor any of its tools.
pub proof fn lemma_without(a: AggregatorSpec, backend: Seq<char>)
    requires
        a.well_formed(),
    ensures
        a.without(backend).well_formed(),
        !serves(a.without(backend).sessions, backend),
        forall|i: int|
            0 <= i < a.without(backend).catalog.len() ==> (#[trigger] a.without(
                backend,
            ).catalog[i]).backend != backend,
{
    lemma_dropped(a.sessions, backend);
    lemma_unlisted(a.catalog, backend);
    let after = a.without(backend);
    assert forall|i: int| 0 <= i < after.catalog.len() implies serves(
        after.sessions,
        (#[trigger] after.catalog[i]).backend,
    ) by {
        let j = choose|j: int| 0 <= j < a.catalog.len() && a.catalog[j] == after.catalog[i];
        assert(serves(a.sessions, a.catalog[j].backend));
    }
}

/// Taking a backend in keeps the registry well formed. Afterwards the
/// backend has its session, and the catalog lists every one of its tools
/// under the tool's prefixed name.
pub proof fn lemma_register(a: AggregatorSpec, session: SessionSpec, tools: Seq<ToolSpec>)
    requires
        a.well_formed(),
        session.well_formed(),
    ensures
        a.register(session, tools).well_formed(),
        serves(a.register(session, tools).sessions, session.name),
        a.register(session, tools).session(session.name) == session,
        forall|k: int|
            0 <= k < tools.len() ==> lists(
                a.register(session, tools).catalog,
                prefixed(session.name, (#[trigger] tools[k]).name),
            ),
        forall|other: Seq<char>|
            other != session.name && serves(a.sessions, other) ==> serves(
                a.register(session, tools).sessions,
                other,
            ),
{
    let name = session.name;
    lemma_without(a, name);
    lemma_dropped(a.sessions, name);
    let base = a.without(name);
    let sessions = base.sessions.push(session);
    let at = base.sessions.len() as int;
    assert(sessions[at] == session);
    assert forall|i: int| 0 <= i < sessions.len() && i != at implies (#[trigger] sessions[i])
        == base.sessions[i] && sessions[i].name != name by {}
    assert forall|i: int, j: int| 0 <= i < j < sessions.len() implies (#[trigger] sessions[i]).name
        != (#[trigger] sessions[j]).name by {
        if j != at {
            assert(base.sessions[i].name != base.sessions[j].name);
        }
    }
    assert(sound_sessions(sessions)) by {
        assert forall|i: int| 0 <= i < sessions.len() implies (#[trigger] sessions[i]).well_formed() by {
            if i != at {
                assert(base.sessions[i].well_formed());
            }
        }
    }
    lemma_seat_is_unique(sessions, name, at);
    assert forall|other: Seq<char>| serves(base.sessions, other) implies serves(sessions, other) by {
        let k = seat(base.sessions, other);
        assert(sessions[k].name == other);
    }
    assert(all_served(base.catalog, sessions));
    lemma_listed_all(base.catalog, sessions, name, tools, tools.len() as int);
}

/// Taking a message in leaves the session's name as it is, and the session
/// well formed.
pub proof fn lemma_receive_keeps_name(s: SessionSpec, message: Option<JsonTree>)
    requires
        s.well_formed(),
    ensures
        s.receive(message).0.name == s.name,
{
}

/// The entry under a name in a catalog.
pub open spec fn entry_of(catalog: Seq<MappingSpec>, name: Seq<char>) -> MappingSpec {
    catalog[place(catalog, name)]
}

/// What listing an entry does to the entry under one name: the new entry
/// stands under its own name, and what stood under any other name stands
/// there still.
pub proof fn lemma_listed_at(catalog: Seq<MappingSpec>, entry: MappingSpec, name: Seq<char>)
    requires
        distinct_names(catalog),
    ensures
        distinct_names(listed(catalog, entry)),
        name == entry.prefixed_name ==> lists(listed(catalog, entry), name) && entry_of(
            listed(catalog, entry),
            name,
        ) == entry,
        name != entry.prefixed_name ==> (lists(listed(catalog, entry), name) <==> lists(
            catalog,
            name,
        )),
        name != entry.prefixed_name && lists(catalog, name) ==> entry_of(
            listed(catalog, entry),
            name,
        ) == entry_of(catalog, name),
{
    lemma_listed(catalog, entry);
}

/// What taking a backend's tools out does to the entry under one name: it
/// stays where it belongs to another backend, and goes where it belongs to
/// this one.
pub proof fn lemma_unlisted_at(catalog: Seq<MappingSpec>, backend: Seq<char>, name: Seq<char>)
    requires
        distinct_names(catalog),
    ensures
        distinct_names(unlisted(catalog, backend)),
        lists(unlisted(catalog, backend), name) <==> lists(catalog, name) && entry_of(
            catalog,
            name,
        ).backend != backend,
        lists(unlisted(catalog, backend), name) ==> entry_of(unlisted(catalog, backend), name)
            == entry_of(catalog, name),
{
    lemma_unlisted(catalog, backend);
    let rest = unlisted(catalog, backend);
    if lists(rest, name) {
        let i = place(rest, name);
        let j = choose|j: int| 0 <= j < catalog.len() && catalog[j] == rest[i];
        lemma_place_is_unique(catalog, name, j);
    }
    if lists(catalog, name) && entry_of(catalog, name).backend != backend {
        let j = place(catalog, name);
        lemma_unlisted_keeps(catalog, backend, j);
        let i = choose|i: int| 0 <= i < rest.len() && rest[i] == catalog[j];
        lemma_place_is_unique(rest, name, i);
    }
}

/// Which of the first `count` tools of a backend holds the prefixed name
/// `name` once they are listed: the last one that comes under it, or -1
/// where none does.
pub open spec fn holder(backend: Seq<char>, tools: Seq<ToolSpec>, count: int, name: Seq<char>) -> int
    decreases count,
{
    if count <= 0 {
        -1
    } else if prefixed(backend, tools[count - 1].name) == name {
        count - 1
    } else {
        holder(backend, tools, count - 1, name)
    }
}

/// The holder of a name is the last tool that comes under it.
pub proof fn lemma_holder(backend: Seq<char>, tools: Seq<ToolSpec>, count: int, name: Seq<char>)
    requires
        0 <= count <= tools.len(),
    ensures
        -1 <= holder(backend, tools, count, name) < count,
        holder(backend, tools, count, name) >= 0 ==> prefixed(
            backend,
            tools[holder(backend, tools, count, name)].name,
        ) == name,
        forall|m: int|
            holder(backend, tools, count, name) < m < count ==> prefixed(
                backend,
                (#[trigger] tools[m]).name,
            ) != name,
    decreases count,
{
    if count > 0 {
        lemma_holder(backend, tools, count - 1, name);
    }
}

/// After the first `count` tools of a backend were listed, the entry under
/// a name is that of the name's holder; a name without holder is listed
/// as it was before.
pub proof fn lemma_listed_all_at(
    catalog: Seq<MappingSpec>,
    backend: Seq<char>,
    tools: Seq<ToolSpec>,
    count: int,
    name: Seq<char>,
)
    requires
        distinct_names(catalog),
        0 <= count <= tools.len(),
    ensures
        distinct_names(listed_all(catalog, backend, tools, count)),
        holder(backend, tools, count, name) >= 0 ==> lists(
            listed_all(catalog, backend, tools, count),
            name,
        ) && entry_of(listed_all(catalog, backend, tools, count), name) == mapping_for(
            backend,
            tools[holder(backend, tools, count, name)],
        ),
        holder(backend, tools, count, name) < 0 ==> (lists(
            listed_all(catalog, backend, tools, count),
            name,
        ) <==> lists(catalog, name)),
        holder(backend, tools, count, name) < 0 && lists(catalog, name) ==> entry_of(
            listed_all(catalog, backend, tools, count),
            name,
        ) == entry_of(catalog, name),
    decreases count,
{
    if count > 0 {
        let before = listed_all(catalog, backend, tools, count - 1);
        let entry = mapping_for(backend, tools[count - 1]);
        lemma_listed_all_at(catalog, backend, tools, count - 1, name);
        lemma_listed_at(before, entry, name);
    }
}

/// What registering a backend does to the entry under one name. Where one
/// of the backend's tools comes under the name, the entry is that of the
/// last such tool. Else the name is listed exactly where it was listed
/// before for another backend, with the entry it had.
pub proof fn lemma_register_at(
    registry: AggregatorSpec,
    session: SessionSpec,
    tools: Seq<ToolSpec>,
    name: Seq<char>,
)
    requires
        registry.well_formed(),
        session.well_formed(),
    ensures
        ({
            let after = registry.register(session, tools);
            let last = holder(session.name, tools, tools.len() as int, name);
            &&& after.well_formed()
            &&& last >= 0 ==> lists(after.catalog, name) && after.entry(name) == mapping_for(
                session.name,
                tools[last],
            )
            &&& last < 0 ==> (lists(after.catalog, name) <==> lists(registry.catalog, name)
                && registry.entry(name).backend != session.name)
            &&& last < 0 && lists(after.catalog, name) ==> after.entry(name) == registry.entry(name)
        }),
{
    lemma_register(registry, session, tools);
    lemma_unlisted_at(registry.catalog, session.name, name);
    lemma_listed_all_at(
        unlisted(registry.catalog, session.name),
        session.name,
        tools,
        tools.len() as int,
        name,
    );
}

/// A tool of a backend that was registered is in the catalog: the catalog
/// lists the tool's prefixed name, and the entry there belongs to the
/// backend. It is the entry of the tool itself, unless a later tool of the
/// backend comes under the same prefixed name.
pub proof fn lemma_registered_tool(
    registry: AggregatorSpec,
    session: SessionSpec,
    tools: Seq<ToolSpec>,
    k: int,
)
    requires
        registry.well_formed(),
        session.well_formed(),
        0 <= k < tools.len(),
    ensures
        ({
            let after = registry.register(session, tools);
            let name = prefixed(session.name, tools[k].name);
            &&& lists(after.catalog, name)
            &&& after.entry(name).backend == session.name
            &&& after.entry(name).prefixed_name == name
            &&& (forall|m: int|
                k < m < tools.len() ==> prefixed(session.name, (#[trigger] tools[m]).name) != name)
                ==> after.entry(name) == mapping_for(session.name, tools[k])
        }),
{
    let name = prefixed(session.name, tools[k].name);
    let count = tools.len() as int;
    lemma_register_at(registry, session, tools, name);
    lemma_holder(session.name, tools, count, name);
    let last = holder(session.name, tools, count, name);
    if last < k {
        assert(prefixed(session.name, tools[k].name) != name);
    }
    if forall|m: int|
        k < m < tools.len() ==> prefixed(session.name, (#[trigger] tools[m]).name) != name {
        if k < last {
            assert(prefixed(session.name, tools[last].name) != name);
        }
    }
}

/// Two backends with different names that each have a tool of the same
/// name are both in the catalog with it, once both are registered: the
/// catalog lists the tool under the one backend's prefixed name and under
/// the other's, and the two names differ, so that they are two entries.
/// The entry under the second backend's name is that backend's own; so is
/// the one under the first backend's name, unless a tool of the second
/// backend came under that very name.
pub proof fn lemma_same_tool_of_two_backends(
    registry: AggregatorSpec,
    first: SessionSpec,
    first_tools: Seq<ToolSpec>,
    second: SessionSpec,
    second_tools: Seq<ToolSpec>,
    i: int,
    j: int,
)
    requires
        registry.well_formed(),
        first.well_formed(),
        second.well_formed(),
        first.name != second.name,
        0 <= i < first_tools.len(),
        0 <= j < second_tools.len(),
        first_tools[i].name == second_tools[j].name,
    ensures
        ({
            let after = registry.register(first, first_tools).register(second, second_tools);
            let tool = first_tools[i].name;
            &&& after.well_formed()
            &&& lists(after.catalog, prefixed(first.name, tool))
            &&& lists(after.catalog, prefixed(second.name, tool))
            &&& prefixed(first.name, tool) != prefixed(second.name, tool)
            &&& place(after.catalog, prefixed(first.name, tool)) != place(
                after.catalog,
                prefixed(second.name, tool),
            )
            &&& after.entry(prefixed(second.name, tool)).backend == second.name
            &&& holder(
                second.name,
                second_tools,
                second_tools.len() as int,
                prefixed(first.name, tool),
            ) < 0 ==> after.entry(prefixed(first.name, tool)).backend == first.name
        }),
{
    let tool = first_tools[i].name;
    let one = registry.register(first, first_tools);
    let after = one.register(second, second_tools);
    let first_name = prefixed(first.name, tool);
    let second_name = prefixed(second.name, tool);
    lemma_prefix_separates_backends(first.name, second.name, tool);
    lemma_registered_tool(registry, first, first_tools, i);
    lemma_register(registry, first, first_tools);
    lemma_registered_tool(one, second, second_tools, j);
    lemma_register_at(one, second, second_tools, first_name);
    lemma_holder(second.name, second_tools, second_tools.len() as int, first_name);
    assert(after.catalog[place(after.catalog, first_name)].prefixed_name == first_name);
    assert(after.catalog[place(after.catalog, second_name)].prefixed_name == second_name);
}

/// A call of a tool that the catalog lists reaches the backend of the
/// tool's entry, under the tool's own name and with exactly the arguments
/// given, and touches no other backend. Where that backend takes no calls
/// the call fails and nothing changes. The gateway's own tool is left out:
/// its name is never routed.
pub proof fn lemma_call_reaches_owner(
    registry: AggregatorSpec,
    at: int,
    arguments: JsonTree,
    caller: JsonTree,
)
    requires
        registry.well_formed(),
        0 <= at < registry.catalog.len(),
        registry.catalog[at].prefixed_name != builtin_name(),
    ensures
        ({
            let entry = registry.catalog[at];
            let session = registry.session(entry.backend);
            let routed = registry.route(entry.prefixed_name, arguments, caller);
            &&& entry.prefixed_name == prefixed(entry.backend, entry.tool.name)
            &&& serves(registry.sessions, entry.backend)
            &&& session.name == entry.backend
            &&& routed.0.well_formed()
            &&& routed.0.catalog == registry.catalog
            &&& if session.may_issue(CallKind::ToolCall) {
                &&& routed.1 == (RoutingSpec::Forwarded {
                    backend: entry.backend,
                    id: session.next_id,
                    line: rendered_json(
                        request_tree(
                            session.next_id,
                            "tools/call"@,
                            call_params(entry.tool.name, arguments),
                        ),
                    ),
                })
                &&& routed.0.session(entry.backend) == session.issue(CallKind::ToolCall, caller)
                &&& forall|other: Seq<char>|
                    other != entry.backend && serves(registry.sessions, other) ==> routed.0.session(
                        other,
                    ) == registry.session(other)
            } else {
                routed == (registry, RoutingSpec::Unavailable { backend: entry.backend })
            }
        }),
{
    let entry = registry.catalog[at];
    lemma_place_is_unique(registry.catalog, entry.prefixed_name, at);
    assert(serves(registry.sessions, entry.backend));
    let seat_of = seat(registry.sessions, entry.backend);
    let session = registry.session(entry.backend);
    if session.may_issue(CallKind::ToolCall) {
        let next = session.issue(CallKind::ToolCall, caller);
        lemma_issue(session, CallKind::ToolCall, caller);
        lemma_with_session(registry, entry.backend, next);
        let after = registry.with_session(entry.backend, next);
        assert forall|other: Seq<char>|
            other != entry.backend && serves(registry.sessions, other) implies after.session(other)
            == registry.session(other) by {
            let k = seat(registry.sessions, other);
            assert(registry.sessions[k].name == other);
            assert(after.sessions[k] == registry.sessions[k]);
            lemma_seat_is_unique(after.sessions, other, k);
        }
    }
}

/// A call of a registered tool under its prefixed name reaches the backend
/// that was registered with it, under the tool's own name and with exactly
/// the arguments given. Left out are a tool under whose prefixed name a
/// later tool of the same backend comes, and a tool whose prefixed name is
/// that of the gateway's own tool.
pub proof fn lemma_registered_tool_is_routed(
    registry: AggregatorSpec,
    session: SessionSpec,
    tools: Seq<ToolSpec>,
    k: int,
    arguments: JsonTree,
    caller: JsonTree,
)
    requires
        registry.well_formed(),
        session.well_formed(),
        0 <= k < tools.len(),
        forall|m: int|
            k < m < tools.len() ==> prefixed(session.name, (#[trigger] tools[m]).name) != prefixed(
                session.name,
                tools[k].name,
            ),
        prefixed(session.name, tools[k].name) != builtin_name(),
    ensures
        ({
            let after = registry.register(session, tools);
            let routed = after.route(prefixed(session.name, tools[k].name), arguments, caller);
            if session.may_issue(CallKind::ToolCall) {
                &&& routed.1 == (RoutingSpec::Forwarded {
                    backend: session.name,
                    id: session.next_id,
                    line: rendered_json(
                        request_tree(
                            session.next_id,
                            "tools/call"@,
                            call_params(tools[k].name, arguments),
                        ),
                    ),
                })
                &&& routed.0.session(session.name) == session.issue(CallKind::ToolCall, caller)
            } else {
                routed == (after, RoutingSpec::Unavailable { backend: session.name })
            }
        }),
{
    let after = registry.register(session, tools);
    let name = prefixed(session.name, tools[k].name);
    lemma_registered_tool(registry, session, tools, k);
    lemma_register(registry, session, tools);
    if session.may_issue(CallKind::ToolCall) {
        lemma_issue(session, CallKind::ToolCall, caller);
        lemma_with_session(after, session.name, session.issue(CallKind::ToolCall, caller));
    }
}

/// A call of a name that the catalog does not list, and that is not the
/// gateway's own tool, is refused as not found, whatever the arguments;
/// the registry stays as it is, so no backend hears of the call.
pub proof fn lemma_unknown_tool_is_refused(
    registry: AggregatorSpec,
    name: Seq<char>,
    arguments: JsonTree,
    caller: JsonTree,
)
    requires
        name != builtin_name(),
        !lists(registry.catalog, name),
    ensures
        registry.route(name, arguments, caller) == (registry, RoutingSpec::NotFound { name }),
        AggregatorSpec::empty().route(name, arguments, caller) == (
            AggregatorSpec::empty(),
            RoutingSpec::NotFound { name },
        ),
{
}

/// Bringing the backends up takes in every one that came up and none that
/// failed: afterwards each backend that came up has a session, every
/// session is one of before or one that came up, and the registry is well
/// formed, so that every tool in the catalog belongs to a backend with a
/// session.
pub proof fn lemma_started(registry: AggregatorSpec, starts: Seq<StartSpec>, count: int)
    requires
        registry.well_formed(),
        0 <= count <= starts.len(),
        forall|k: int|
            0 <= k < starts.len() ==> ((#[trigger] starts[k]) matches StartSpec::Started {
                session,
                ..
            } ==> session.well_formed()),
    ensures
        registry.started(starts, count).well_formed(),
        forall|k: int|
            0 <= k < count ==> ((#[trigger] starts[k]) matches StartSpec::Started { session, .. }
                ==> serves(registry.started(starts, count).sessions, session.name)),
        forall|name: Seq<char>|
            serves(registry.started(starts, count).sessions, name) ==> serves(
                registry.sessions,
                name,
            ) || (exists|k: int|
                0 <= k < count && (#[trigger] starts[k]) is Started && starts[k]->session.name
                    == name),
    decreases count,
{
    if count > 0 {
        lemma_started(registry, starts, count - 1);
        let before = registry.started(starts, count - 1);
        let after = registry.started(starts, count);
        match starts[count - 1] {
            StartSpec::Started { session, tools } => {
                lemma_register(before, session, tools);
                lemma_dropped(before.sessions, session.name);
                assert forall|k: int| 0 <= k < count implies ((#[trigger] starts[k]) matches StartSpec::Started {
                    session: s,
                    ..
                } ==> serves(after.sessions, s.name)) by {
                    if k < count - 1 {
                        match starts[k] {
                            StartSpec::Started { session: s, .. } => {
                                if s.name != session.name {
                                    assert(serves(before.sessions, s.name));
                                }
                            },
                            _ => {},
                        }
                    }
                }
                assert forall|name: Seq<char>| serves(after.sessions, name) implies serves(
                    registry.sessions,
                    name,
                ) || (exists|k: int|
                    0 <= k < count && (#[trigger] starts[k]) is Started && starts[k]->session.name
                        == name) by {
                    if name == session.name {
                        assert(starts[count - 1] is Started && starts[count - 1]->session.name == name);
                    } else {
                        let at = seat(after.sessions, name);
                        assert(after.sessions[at].name == name);
                        assert(at < after.sessions.len() - 1);
                        assert(dropped(before.sessions, session.name)[at].name == name);
                        assert(serves(before.sessions, name));
                        if !serves(registry.sessions, name) {
                            let k = choose|k: int|
                                0 <= k < count - 1 && (#[trigger] starts[k]) is Started
                                    && starts[k]->session.name == name;
                            assert(starts[k] is Started && starts[k]->session.name == name);
                        }
                    }
                }
            },
            StartSpec::Failed { .. } => {
                assert forall|name: Seq<char>| serves(after.sessions, name) implies serves(
                    registry.sessions,
                    name,
                ) || (exists|k: int|
                    0 <= k < count && (#[trigger] starts[k]) is Started && starts[k]->session.name
                        == name) by {
                    if !serves(registry.sessions, name) {
                        let k = choose|k: int|
                            0 <= k < count - 1 && (#[trigger] starts[k]) is Started
                                && starts[k]->session.name == name;
                        assert(starts[k] is Started && starts[k]->session.name == name);
                    }
                }
            },
        }
    }
}

/// Once the registry is closed it holds no session and no tool: no request
/// is outstanding anywhere, a message from any backend resolves nothing,
/// and every name but the gateway's own is not found. Every session that
/// was shut on the way has nothing outstanding either.
pub proof fn lemma_closed_is_drained(
    sessions: Seq<SessionSpec>,
    backend: Seq<char>,
    message: Option<JsonTree>,
    name: Seq<char>,
    arguments: JsonTree,
    caller: JsonTree,
)
    requires
        name != builtin_name(),
    ensures
        AggregatorSpec::empty().well_formed(),
        AggregatorSpec::empty().sessions.len() == 0,
        AggregatorSpec::empty().catalog.len() == 0,
        AggregatorSpec::empty().outstanding(backend) == Seq::<PendingSpec>::empty(),
        AggregatorSpec::empty().receive(backend, message) == (
            AggregatorSpec::empty(),
            InboundSpec::Unmatched,
        ),
        AggregatorSpec::empty().route(name, arguments, caller) == (
            AggregatorSpec::empty(),
            RoutingSpec::NotFound { name },
        ),
        AggregatorSpec::empty().without(backend) == AggregatorSpec::empty(),
        forall|i: int|
            0 <= i < sessions.len() ==> (#[trigger] sessions[i]).shut().pending.len() == 0
                && sessions[i].shut().state is Closed,
{
    assert(AggregatorSpec::empty().without(backend).catalog =~= Seq::empty());
}

} // verus!
