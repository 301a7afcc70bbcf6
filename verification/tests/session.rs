use pool_relay::echo::{echo_reply, websocket_url, MyContext};
use pool_relay::records::{CreatePenguinEncounter, PenaltyEnum};
use pool_relay::relay::{
    PeerTextPolicy, RelayAction, RelayEvent, RelaySession, SessionState, Strictness,
};

fn open_session(policy: PeerTextPolicy, strictness: Strictness) -> RelaySession {
    let mut s = RelaySession::new(policy, strictness);
    s.step(RelayEvent::HandshakeDone);
    assert_eq!(s.state, SessionState::Open);
    s
}

#[test]
fn echo_session_greets_on_open() {
    let mut s = RelaySession::new(PeerTextPolicy::EchoUppercase, Strictness::SkipViolations);
    match s.step(RelayEvent::HandshakeDone) {
        RelayAction::SendText(t) => assert_eq!(t, "Why am I waiting?"),
        other => panic!("expected the greeting, got {:?}", action_name(&other)),
    }
}

#[test]
fn echo_session_uppercases_in_order() {
    let mut s = open_session(PeerTextPolicy::EchoUppercase, Strictness::SkipViolations);
    let mut out = Vec::new();
    for f in ["abc", "Def"] {
        match s.step(RelayEvent::PeerText(f.to_string())) {
            RelayAction::SendText(t) => out.push(t),
            other => panic!("expected a reply, got {}", action_name(&other)),
        }
    }
    assert_eq!(out, vec!["ABC".to_string(), "DEF".to_string()]);
    assert_eq!(s.state, SessionState::Open);
}

#[test]
fn echo_session_handles_empty_frame() {
    let mut s = open_session(PeerTextPolicy::EchoUppercase, Strictness::SkipViolations);
    match s.step(RelayEvent::PeerText(String::new())) {
        RelayAction::SendText(t) => assert_eq!(t, ""),
        other => panic!("expected a reply, got {}", action_name(&other)),
    }
}

#[test]
fn client_session_delivers_peer_text_unchanged() {
    let mut s = open_session(PeerTextPolicy::DeliverLocal, Strictness::SkipViolations);
    match s.step(RelayEvent::PeerText("Mixed Case".to_string())) {
        RelayAction::DeliverText(t) => assert_eq!(t, "Mixed Case"),
        other => panic!("expected a delivery, got {}", action_name(&other)),
    }
}

#[test]
fn peer_close_completes_inflight_write() {
    let mut s = open_session(PeerTextPolicy::DeliverLocal, Strictness::SkipViolations);
    assert!(matches!(
        s.step(RelayEvent::LocalText("draining".to_string())),
        RelayAction::Idle
    ));
    s.step(RelayEvent::PeerClose);
    assert_eq!(s.state, SessionState::Closing);
    // the write accepted before the close is still completed, in order
    assert_eq!(s.next_outgoing(), Some("draining".to_string()));
    assert_eq!(s.state, SessionState::Closing);
    assert_eq!(s.next_outgoing(), None);
    assert_eq!(s.state, SessionState::Closed);
    assert!(s.pending.is_empty());
    // a send after close is an explicit rejection, never a silent hang
    assert!(matches!(
        s.step(RelayEvent::LocalText("late".to_string())),
        RelayAction::Rejected
    ));
}

#[test]
fn local_writes_drain_in_order() {
    let mut s = open_session(PeerTextPolicy::DeliverLocal, Strictness::SkipViolations);
    s.step(RelayEvent::LocalText("first".to_string()));
    s.step(RelayEvent::LocalText("second".to_string()));
    assert_eq!(s.next_outgoing(), Some("first".to_string()));
    assert_eq!(s.next_outgoing(), Some("second".to_string()));
    assert_eq!(s.next_outgoing(), None);
    assert_eq!(s.state, SessionState::Open);
}

#[test]
fn grace_period_drops_what_did_not_drain() {
    let mut s = open_session(PeerTextPolicy::DeliverLocal, Strictness::SkipViolations);
    s.step(RelayEvent::LocalText("unwritten".to_string()));
    s.step(RelayEvent::TransportFailed);
    assert_eq!(s.state, SessionState::Closing);
    s.grace_expired();
    assert_eq!(s.state, SessionState::Closed);
    assert!(s.pending.is_empty());
}

#[test]
fn binary_frame_reported_and_skipped() {
    let mut s = open_session(PeerTextPolicy::EchoUppercase, Strictness::SkipViolations);
    assert!(matches!(
        s.step(RelayEvent::PeerBinary(vec![0u8, 159, 146])),
        RelayAction::ReportBinary
    ));
    // the session survives and still serves later text frames
    assert_eq!(s.state, SessionState::Open);
    match s.step(RelayEvent::PeerText("still here".to_string())) {
        RelayAction::SendText(t) => assert_eq!(t, "STILL HERE"),
        other => panic!("expected a reply, got {}", action_name(&other)),
    }
}

#[test]
fn binary_frame_closes_under_strict_policy() {
    let mut s = open_session(PeerTextPolicy::EchoUppercase, Strictness::CloseOnViolation);
    assert!(matches!(
        s.step(RelayEvent::PeerBinary(vec![1u8, 2])),
        RelayAction::ReportBinary
    ));
    assert_eq!(s.state, SessionState::Closing);
    assert_eq!(s.next_outgoing(), None);
    assert_eq!(s.state, SessionState::Closed);
}

#[test]
fn pings_and_pongs_are_quiet() {
    let mut s = open_session(PeerTextPolicy::EchoUppercase, Strictness::SkipViolations);
    assert!(matches!(s.step(RelayEvent::PeerPing(vec![1u8])), RelayAction::Idle));
    assert!(matches!(s.step(RelayEvent::PeerPong(vec![2u8])), RelayAction::Idle));
    assert_eq!(s.state, SessionState::Open);
}

#[test]
fn echo_reply_prefixes_and_uppercases() {
    let ctx = MyContext { title: "Dioxus Context".to_string() };
    assert_eq!(echo_reply(&ctx, "hello"), "Dioxus Context: HELLO");
    assert_eq!(echo_reply(&ctx, ""), "Dioxus Context: ");
}

#[test]
fn websocket_url_picks_scheme_from_protocol() {
    assert_eq!(websocket_url("https:", "example.org"), "wss://example.org/echo");
    assert_eq!(websocket_url("http:", "localhost:8080"), "ws://localhost:8080/echo");
}

#[test]
fn penalty_labels() {
    assert_eq!(PenaltyEnum::PatPenguin.label(), "Pat Penguin");
    assert_eq!(PenaltyEnum::BecomePenguinGood.label(), "Become Penguin Good");
    assert_eq!(PenaltyEnum::Jail.label(), "Jail");
    assert_eq!(PenaltyEnum::Sacrifice.label(), "Sacrifice");
    assert_eq!(PenaltyEnum::WorshipTux.label(), "Worship Tux");
}

#[test]
fn create_encounter_keeps_its_fields() {
    let payload = CreatePenguinEncounter::new(
        "Tux".to_string(),
        "Antarctica".to_string(),
        PenaltyEnum::PatPenguin,
        1_700_000_000_000_000,
    );
    assert_eq!(payload.name, "Tux");
    assert_eq!(payload.location, "Antarctica");
    assert!(matches!(payload.penalty, PenaltyEnum::PatPenguin));
    assert_eq!(payload.date_time_micros, 1_700_000_000_000_000);
}

fn action_name(a: &RelayAction) -> &'static str {
    match a {
        RelayAction::Idle => "Idle",
        RelayAction::SendText(_) => "SendText",
        RelayAction::DeliverText(_) => "DeliverText",
        RelayAction::ReportBinary => "ReportBinary",
        RelayAction::Rejected => "Rejected",
    }
}
