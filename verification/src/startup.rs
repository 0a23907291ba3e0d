//! Bringing one backend up: the handshake, then the discovery of its
//! tools, each a request whose reply is awaited.

use vstd::prelude::*;
use crate::aggregator::{BackendStart, StartSpec};
use crate::error::{AppError, ErrorKind};
use crate::json::{document, maybe_view, parse, parsed_json, rendered_json, single_line};
use crate::json::{Json, JsonTree};
use crate::session::{lemma_issue, lemma_remove_keeps_order, lemma_slot_is_unique, request_tree};
use crate::session::{CallKind, ChildSession, Inbound, InboundSpec, Outgoing, SessionSpec};
use crate::wire::{read_tools, tools_from_json};

verus! {

/// A backend on its way up: its session, and which of the two requests
/// is outstanding.
#[derive(Debug)]
pub struct Startup {
    session: ChildSession,
    discovering: bool,
}

/// The content of a `Startup`.
pub struct StartupSpec {
    pub session: SessionSpec,
    pub discovering: bool,
}

impl View for Startup {
    type V = StartupSpec;

    closed spec fn view(&self) -> StartupSpec {
        StartupSpec { session: self.session@, discovering: self.discovering }
    }
}

/// Where a backend stands after a step of its way up.
#[derive(Debug)]
pub enum Progress {
    /// Nothing has changed: the reply is still awaited.
    Waiting(Startup),
    /// The handshake succeeded: `request` asks for the tools and is to be
    /// written to the backend's input.
    Discovering { startup: Startup, request: Outgoing },
    /// The backend came up with its tools, or it failed.
    Finished(BackendStart),
}

/// The content of a `Progress`.
pub enum ProgressSpec {
    Waiting { startup: StartupSpec },
    Discovering { startup: StartupSpec, id: u64, line: Seq<char> },
    Finished { start: StartSpec },
}

impl View for Progress {
    type V = ProgressSpec;

    open spec fn view(&self) -> ProgressSpec {
        match self {
            Progress::Waiting(startup) => ProgressSpec::Waiting { startup: startup@ },
            Progress::Discovering { startup, request } => ProgressSpec::Discovering {
                startup: startup@,
                id: request.id,
                line: request.line@,
            },
            Progress::Finished(start) => ProgressSpec::Finished { start: start@ },
        }
    }
}

/// The outcome for a backend that failed on its way up: the kind of the
/// failure, with the backend's name as its text.
pub open spec fn failure(name: Seq<char>, kind: ErrorKind) -> StartSpec {
    StartSpec::Failed { name, kind, detail: name }
}

impl StartupSpec {
    /// The way up begins with a fresh session on which the handshake is
    /// outstanding.
    pub open spec fn begun(name: Seq<char>) -> StartupSpec {
        StartupSpec {
            session: SessionSpec::fresh(name).issue(CallKind::Handshake, JsonTree::Null),
            discovering: false,
        }
    }

    /// One request is outstanding: the handshake, the first request of a
    /// starting session, or the discovery, the second request of a ready
    /// one.
    pub open spec fn well_formed(self) -> bool {
        &&& self.session.well_formed()
        &&& self.session.pending.len() == 1
        &&& if self.discovering {
            &&& self.session.pending[0].kind is Discovery
            &&& self.session.state is Ready
            &&& self.session.next_id == 3
        } else {
            &&& self.session.pending[0].kind is Handshake
            &&& self.session.state is Starting
            &&& self.session.next_id == 2
        }
    }

    /// What a message from the backend does to the way up. A message that
    /// resolves nothing changes nothing. The reply to the handshake leads
    /// on to the discovery, or, where it is an error, to failure. The
    /// reply to the discovery brings the backend up with the tools it
    /// lists; an error, or a reply that lists no tools, is a failure.
    pub open spec fn advance(self, message: Option<JsonTree>) -> ProgressSpec {
        let got = self.session.receive(message);
        match got.1 {
            InboundSpec::Resolved { call, outcome } => match outcome {
                Ok(result) => if self.discovering {
                    match read_tools(result) {
                        Some(tools) => ProgressSpec::Finished {
                            start: StartSpec::Started { session: got.0, tools },
                        },
                        None => ProgressSpec::Finished {
                            start: failure(self.session.name, ErrorKind::Discovery),
                        },
                    }
                } else {
                    ProgressSpec::Discovering {
                        startup: StartupSpec {
                            session: got.0.issue(CallKind::Discovery, JsonTree::Null),
                            discovering: true,
                        },
                        id: got.0.next_id,
                        line: rendered_json(
                            request_tree(got.0.next_id, "tools/list"@, JsonTree::Object(Seq::empty())),
                        ),
                    }
                },
                Err(_) => ProgressSpec::Finished {
                    start: failure(
                        self.session.name,
                        if self.discovering {
                            ErrorKind::Discovery
                        } else {
                            ErrorKind::Handshake
                        },
                    ),
                },
            },
            _ => ProgressSpec::Waiting { startup: self },
        }
    }
}

/// On the way up one request is outstanding, so a message that resolves a
/// request resolves that one and leaves none; after the handshake the
/// session is ready and can take the discovery.
pub proof fn lemma_advance(s: StartupSpec, message: Option<JsonTree>)
    requires
        s.well_formed(),
    ensures
        s.session.receive(message).1 is Resolved ==> {
            let got = s.session.receive(message);
            &&& got.0.well_formed()
            &&& got.0.pending.len() == 0
            &&& got.0.name == s.session.name
            &&& got.0.next_id == s.session.next_id
            &&& got.1->call == s.session.pending[0]
            &&& !s.discovering && got.1->outcome is Ok ==> got.0.state is Ready && got.0.may_issue(
                CallKind::Discovery,
            )
            &&& s.discovering ==> got.0.state is Ready || got.0.state is Degraded
        },
        !(s.session.receive(message).1 is Resolved) ==> s.session.receive(message).0 == s.session,
        s.advance(message) matches ProgressSpec::Discovering { startup, .. } ==> startup.well_formed(),
        s.advance(message) matches ProgressSpec::Waiting { startup } ==> startup.well_formed(),
        s.advance(message) matches ProgressSpec::Finished {
            start: StartSpec::Started { session, .. },
        } ==> session.well_formed() && session.name == s.session.name && session.state is Ready
            && session.pending.len() == 0,
{
    let got = s.session.receive(message);
    if got.1 is Resolved {
        let id = got.1->call.id;
        lemma_slot_is_unique(s.session, s.session.pending[0].id, 0);
        assert(s.session.holds(id));
        let at = s.session.slot(id);
        assert(at == 0);
        lemma_remove_keeps_order(s.session, 0);
        assert(got.0.pending.len() == 0);
        if !s.discovering && got.1->outcome is Ok {
            lemma_issue(got.0, CallKind::Discovery, JsonTree::Null);
            assert(got.0.issue(CallKind::Discovery, JsonTree::Null).pending.len() == 1);
        }
    }
}

impl Startup {
    /// Begins to bring the backend `name` up, whose process has just been
    /// started: opens its session and hands back the handshake, to be
    /// written to the backend's input.
    pub fn begin(name: &str) -> (r: (Startup, Outgoing))
        ensures
            r.0@ == StartupSpec::begun(name@),
            r.0@.well_formed(),
            r.1.id == 1,
            r.1.line@ == rendered_json(
                request_tree(1, "initialize"@, JsonTree::Object(Seq::empty())),
            ),
            single_line(r.1.line@),
    {
        let mut session = ChildSession::new(name);
        proof {
            lemma_issue(SessionSpec::fresh(name@), CallKind::Handshake, JsonTree::Null);
        }
        let request = session.send(
            CallKind::Handshake,
            "initialize",
            Json::empty_object(),
            Json::Null,
        );
        (Startup { session, discovering: false }, request)
    }

    /// The backend's name.
    pub fn name(&self) -> (name: &str)
        ensures
            name@ == self@.session.name,
    {
        self.session.name()
    }

    /// Takes in one message from the backend, already read as JSON (`None`
    /// for a line that is no JSON).
    pub fn on_message(self, message: Option<Json>) -> (r: Progress)
        requires
            self@.well_formed(),
        ensures
            r@ == self@.advance(maybe_view(message)),
            r matches Progress::Waiting(startup) ==> startup@.well_formed(),
            r matches Progress::Discovering { startup, request } ==> startup@.well_formed()
                && single_line(request.line@),
            r matches Progress::Finished(BackendStart::Started { session, .. })
                ==> session@.well_formed(),
    {
        proof {
            lemma_advance(self@, maybe_view(message));
        }
        let discovering = self.discovering;
        let mut session = self.session;
        match session.on_message(message) {
            Inbound::Resolved { call, outcome } => match outcome {
                Ok(result) => {
                    if discovering {
                        match tools_from_json(&result) {
                            Some(tools) => Progress::Finished(BackendStart::Started { session, tools }),
                            None => Progress::Finished(failed(&session, ErrorKind::Discovery)),
                        }
                    } else {
                        let request = session.send(
                            CallKind::Discovery,
                            "tools/list",
                            Json::empty_object(),
                            Json::Null,
                        );
                        Progress::Discovering {
                            startup: Startup { session, discovering: true },
                            request,
                        }
                    }
                },
                Err(_) => {
                    if discovering {
                        Progress::Finished(failed(&session, ErrorKind::Discovery))
                    } else {
                        Progress::Finished(failed(&session, ErrorKind::Handshake))
                    }
                },
            },
            _ => Progress::Waiting(Startup { session, discovering }),
        }
    }

    /// Takes in one line from the backend's output.
    pub fn on_line(self, line: &str) -> (r: Progress)
        requires
            self@.well_formed(),
        ensures
            r@ == self@.advance(document(parsed_json(line@))),
            r matches Progress::Waiting(startup) ==> startup@.well_formed(),
            r matches Progress::Discovering { startup, request } ==> startup@.well_formed()
                && single_line(request.line@),
            r matches Progress::Finished(BackendStart::Started { session, .. })
                ==> session@.well_formed(),
    {
        let message = match parse(line) {
            Ok(doc) => Some(doc),
            Err(_) => None,
        };
        self.on_message(message)
    }

    /// The reply did not come in time: the backend has failed.
    pub fn on_deadline(self) -> (r: BackendStart)
        ensures
            r@ == failure(self@.session.name, ErrorKind::Timeout),
    {
        failed(&self.session, ErrorKind::Timeout)
    }

    /// The backend's process went away: the backend has failed.
    pub fn on_exit(self) -> (r: BackendStart)
        ensures
            r@ == failure(self@.session.name, ErrorKind::BackendUnavailable),
    {
        failed(&self.session, ErrorKind::BackendUnavailable)
    }
}

fn failed(session: &ChildSession, kind: ErrorKind) -> (r: BackendStart)
    requires
        kind is Handshake || kind is Discovery || kind is Timeout || kind is BackendUnavailable,
    ensures
        r@ == failure(session@.name, kind),
{
    let name = session.name().to_owned();
    let text = session.name().to_owned();
    let error = match kind {
        ErrorKind::Handshake => AppError::Handshake(text),
        ErrorKind::Discovery => AppError::Discovery(text),
        ErrorKind::Timeout => AppError::Timeout(text),
        _ => AppError::BackendUnavailable(text),
    };
    BackendStart::Failed { name, error }
}

} // verus!
