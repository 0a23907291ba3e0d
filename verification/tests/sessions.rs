use combine_mcp::json::{parse, Json};
use combine_mcp::session::{message_id, message_outcome};
use combine_mcp::session::{CallKind, ChildSession, Inbound, PendingCall, SessionState};

fn ready(name: &str) -> ChildSession {
    let mut session = ChildSession::new(name);
    let out = session.begin_handshake().unwrap();
    let reply = format!("{{\"jsonrpc\":\"2.0\",\"id\":{},\"result\":{{}}}}", out.id);
    assert!(matches!(session.on_line(&reply), Inbound::Resolved { .. }));
    session
}

#[test]
fn a_new_session_is_starting_with_nothing_outstanding() {
    let session = ChildSession::new("files");
    assert_eq!(session.name(), "files");
    assert_eq!(session.state(), SessionState::Starting);
    assert_eq!(session.pending_count(), 0);
    assert!(!session.is_pending(1));
}

#[test]
fn the_handshake_makes_a_starting_session_ready() {
    let mut session = ChildSession::new("files");
    let out = session.begin_handshake().unwrap();
    assert_eq!(out.id, 1);
    assert_eq!(out.line, "{\"id\":1,\"jsonrpc\":\"2.0\",\"method\":\"initialize\",\"params\":{}}");
    assert!(session.is_pending(1));
    assert_eq!(session.state(), SessionState::Starting);

    let got = session.on_line("{\"jsonrpc\":\"2.0\",\"id\":1,\"result\":{\"ok\":true}}");
    assert_eq!(
        got,
        Inbound::Resolved {
            call: PendingCall { id: 1, kind: CallKind::Handshake, caller: Json::Null },
            outcome: Ok(Json::single("ok", Json::Bool(true))),
        }
    );
    assert_eq!(session.state(), SessionState::Ready);
    assert_eq!(session.pending_count(), 0);
}

#[test]
fn a_failed_handshake_degrades_the_session() {
    let mut session = ChildSession::new("files");
    session.begin_handshake().unwrap();
    let got = session.on_line("{\"jsonrpc\":\"2.0\",\"id\":1,\"error\":{\"code\":-1,\"message\":\"no\"}}");
    match got {
        Inbound::Resolved { call, outcome } => {
            assert_eq!(call.kind, CallKind::Handshake);
            assert_eq!(outcome, Err(parse("{\"code\":-1,\"message\":\"no\"}").unwrap()));
        }
        other => panic!("unexpected: {:?}", other),
    }
    assert_eq!(session.state(), SessionState::Degraded);
    assert!(session.begin_discovery().is_none());
    assert!(session.begin_handshake().is_none());
}

#[test]
fn requests_are_refused_in_the_wrong_state() {
    let mut starting = ChildSession::new("files");
    assert!(starting.begin_discovery().is_none());
    assert!(starting.begin_call("t", Json::Null, Json::Null).is_none());
    assert_eq!(starting.pending_count(), 0);

    let mut session = ready("files");
    assert!(session.begin_handshake().is_none());
    assert!(session.begin_discovery().is_some());
    assert!(session.begin_call("t", Json::Null, Json::Null).is_some());

    session.close();
    assert!(session.begin_handshake().is_none());
    assert!(session.begin_discovery().is_none());
    assert!(session.begin_call("t", Json::Null, Json::Null).is_none());
}

#[test]
fn discovery_and_calls_are_written_as_requests() {
    let mut session = ready("files");
    let discovery = session.begin_discovery().unwrap();
    assert_eq!(discovery.id, 2);
    assert_eq!(discovery.line, "{\"id\":2,\"jsonrpc\":\"2.0\",\"method\":\"tools/list\",\"params\":{}}");
    let call = session
        .begin_call("read-file", Json::single("path", Json::text("/tmp/a")), Json::from_u64(9))
        .unwrap();
    assert_eq!(call.id, 3);
    assert_eq!(
        call.line,
        "{\"id\":3,\"jsonrpc\":\"2.0\",\"method\":\"tools/call\",\"params\":{\"arguments\":{\"path\":\"/tmp/a\"},\"name\":\"read-file\"}}"
    );
    assert_eq!(session.pending_count(), 2);
}

#[test]
fn replies_are_paired_by_id_in_any_order() {
    let mut session = ready("files");
    let first = session.begin_call("a", Json::Null, Json::text("first")).unwrap();
    let second = session.begin_call("b", Json::Null, Json::text("second")).unwrap();
    assert_ne!(first.id, second.id);

    let early = session.on_line(&format!("{{\"id\":{},\"result\":\"for second\"}}", second.id));
    assert_eq!(
        early,
        Inbound::Resolved {
            call: PendingCall { id: second.id, kind: CallKind::ToolCall, caller: Json::text("second") },
            outcome: Ok(Json::text("for second")),
        }
    );
    assert!(session.is_pending(first.id));
    assert!(!session.is_pending(second.id));

    let late = session.on_line(&format!("{{\"id\":{},\"result\":\"for first\"}}", first.id));
    assert_eq!(
        late,
        Inbound::Resolved {
            call: PendingCall { id: first.id, kind: CallKind::ToolCall, caller: Json::text("first") },
            outcome: Ok(Json::text("for first")),
        }
    );
    assert_eq!(session.pending_count(), 0);
    assert_eq!(session.state(), SessionState::Ready);
}

#[test]
fn a_request_is_resolved_once() {
    let mut session = ready("files");
    let call = session.begin_call("a", Json::Null, Json::Null).unwrap();
    let reply = format!("{{\"id\":{},\"result\":1}}", call.id);
    assert!(matches!(session.on_line(&reply), Inbound::Resolved { .. }));
    assert_eq!(session.on_line(&reply), Inbound::Unmatched);
}

#[test]
fn noise_from_the_backend_is_dropped() {
    let mut session = ready("files");
    let call = session.begin_call("a", Json::Null, Json::Null).unwrap();
    assert_eq!(session.on_line("starting up..."), Inbound::Malformed);
    assert_eq!(session.on_line(""), Inbound::Malformed);
    assert_eq!(session.on_line("{\"id\":999,\"result\":1}"), Inbound::Unmatched);
    assert_eq!(session.on_line("{\"result\":1}"), Inbound::Unmatched);
    assert_eq!(session.on_line("{\"id\":\"2\",\"result\":1}"), Inbound::Unmatched);
    assert_eq!(session.on_line("{\"id\":2.0,\"result\":1}"), Inbound::Unmatched);
    assert_eq!(session.on_line("[1,2]"), Inbound::Unmatched);
    assert!(session.is_pending(call.id));
    assert_eq!(session.pending_count(), 1);
    assert_eq!(session.state(), SessionState::Ready);
}

#[test]
fn a_deadline_gives_the_request_up_and_a_late_reply_is_dropped() {
    let mut session = ready("files");
    let call = session.begin_call("a", Json::Null, Json::text("who")).unwrap();
    let given_up = session.on_timeout(call.id).unwrap();
    assert_eq!(given_up, PendingCall { id: call.id, kind: CallKind::ToolCall, caller: Json::text("who") });
    assert_eq!(session.state(), SessionState::Degraded);
    assert!(!session.is_pending(call.id));
    assert_eq!(session.on_timeout(call.id), None);
    assert_eq!(session.on_line(&format!("{{\"id\":{},\"result\":1}}", call.id)), Inbound::Unmatched);

    let next = session.begin_call("b", Json::Null, Json::Null).unwrap();
    assert_eq!(next.id, call.id + 1);
}

#[test]
fn closing_hands_back_what_was_outstanding() {
    let mut session = ready("files");
    let a = session.begin_call("a", Json::Null, Json::from_u64(1)).unwrap();
    let b = session.begin_call("b", Json::Null, Json::from_u64(2)).unwrap();
    let failed = session.close();
    assert_eq!(
        failed,
        vec![
            PendingCall { id: a.id, kind: CallKind::ToolCall, caller: Json::from_u64(1) },
            PendingCall { id: b.id, kind: CallKind::ToolCall, caller: Json::from_u64(2) },
        ]
    );
    assert_eq!(session.state(), SessionState::Closed);
    assert_eq!(session.pending_count(), 0);
    assert_eq!(session.close(), vec![]);
    assert_eq!(session.state(), SessionState::Closed);
    assert_eq!(session.on_line(&format!("{{\"id\":{},\"result\":1}}", a.id)), Inbound::Unmatched);
}

#[test]
fn on_message_takes_what_was_read_already() {
    let mut session = ready("files");
    let call = session.begin_call("a", Json::Null, Json::Null).unwrap();
    assert_eq!(session.on_message(None), Inbound::Malformed);
    let reply = parse(&format!("{{\"id\":{},\"error\":null,\"result\":[1]}}", call.id)).unwrap();
    match session.on_message(Some(reply)) {
        Inbound::Resolved { outcome, .. } => assert_eq!(outcome, Ok(Json::Array(vec![Json::from_u64(1)]))),
        other => panic!("unexpected: {:?}", other),
    }
}

#[test]
fn a_message_is_read_for_its_id_and_its_outcome() {
    let ok = parse("{\"id\":4,\"result\":{\"a\":1}}").unwrap();
    assert_eq!(message_id(&ok), Some(4));
    assert_eq!(message_outcome(&ok), Ok(Json::single("a", Json::from_u64(1))));

    let failed = parse("{\"id\":5,\"error\":{\"code\":1},\"result\":2}").unwrap();
    assert_eq!(message_id(&failed), Some(5));
    assert_eq!(message_outcome(&failed), Err(Json::single("code", Json::from_u64(1))));

    let empty = parse("{}").unwrap();
    assert_eq!(message_id(&empty), None);
    assert_eq!(message_outcome(&empty), Ok(Json::Null));
}
