//! The duplex relay session: a per-connection state machine bridging a
//! local frame producer and a peer-originated frame stream over one
//! transport.
//!
//! The session is the decision half of the relay loop. The process around
//! it waits on both directions at once (local producer and peer socket),
//! feeds whichever event arrives first into `step`, performs the returned
//! action on the transport, and pulls queued local writes with
//! `next_outgoing`. Within one direction frames are handled in arrival
//! order; between directions no order is promised. Text frames are the
//! only accepted content: a binary frame is a protocol violation that is
//! reported and, per the configured strictness, skipped or answered by
//! closing the session. Once either side signals end-of-stream the whole
//! session tears down; a half-open session is never left dangling.

use vstd::prelude::*;
use vstd::string::StringExecFns;

verus! {

/// What the echo transform returns: the uppercase mapping of a text
/// frame's characters.
pub uninterp spec fn upper_of(s: Seq<char>) -> Seq<char>;

/// Relies on str::to_uppercase: the result is a new string whose value
/// depends on the argument's characters alone.
#[verifier::external_body]
pub(crate) fn to_upper(s: &str) -> (r: String)
    ensures
        r@ == upper_of(s@),
        s@.len() == 0 ==> r@.len() == 0,
{
    s.to_uppercase()
}

/// The greeting an echo session sends as soon as it opens.
pub open spec fn greeting_text() -> Seq<char> {
    "Why am I waiting?"@
}

/// Lifecycle of a relay session, in order; `Closed` is terminal.
#[derive(Clone, Copy, Debug, PartialEq, Eq, Structural)]
pub enum SessionState {
    /// The transport handshake has not completed yet.
    Connecting,
    /// Frames flow in both directions.
    Open,
    /// One side signalled end-of-stream or the transport failed; pending
    /// writes drain, then the session closes.
    Closing,
    /// Terminal: no further frames are sent or accepted.
    Closed,
}

/// What to do with a protocol violation (a binary frame).
#[derive(Clone, Copy, Debug, PartialEq, Eq, Structural)]
pub enum Strictness {
    /// Report the frame and go on with the session.
    SkipViolations,
    /// Report the frame and close the session.
    CloseOnViolation,
}

/// What an open session does with a text frame arriving from the peer.
#[derive(Clone, Copy, Debug, PartialEq, Eq, Structural)]
pub enum PeerTextPolicy {
    /// Send the uppercase transform of the frame back to the peer (the
    /// stock echo behaviour).
    EchoUppercase,
    /// Hand the frame to the local consumer unchanged (the client side of
    /// the relay).
    DeliverLocal,
}

/// One event fed into the session by the surrounding loop.
pub enum RelayEvent {
    /// The transport handshake completed.
    HandshakeDone,
    /// A text frame arrived from the peer.
    PeerText(String),
    /// A binary frame arrived from the peer: a protocol violation here.
    PeerBinary(Vec<u8>),
    /// A transport-level ping arrived; nothing to decide.
    PeerPing(Vec<u8>),
    /// A transport-level pong arrived; nothing to decide.
    PeerPong(Vec<u8>),
    /// The peer signalled end-of-stream.
    PeerClose,
    /// The local producer handed in a text frame to write out.
    LocalText(String),
    /// A transport read or write failed.
    TransportFailed,
}

/// What the surrounding loop must do after an event.
pub enum RelayAction {
    /// Nothing to perform.
    Idle,
    /// Write this text frame to the peer.
    SendText(String),
    /// Hand this text frame to the local consumer.
    DeliverText(String),
    /// Report a binary frame as a protocol violation (the session state
    /// says whether it goes on or closes).
    ReportBinary,
    /// The frame was not accepted: the session is closing or closed.
    Rejected,
}

/// The session as the contracts see it.
#[verifier::ext_equal]
pub struct SessionModel {
    /// Lifecycle state.
    pub state: SessionState,
    /// What to do with peer text frames.
    pub policy: PeerTextPolicy,
    /// What to do with protocol violations.
    pub strictness: Strictness,
    /// Queued local writes, oldest first.
    pub pending: Seq<Seq<char>>,
}

/// An event as the contracts see it.
#[verifier::ext_equal]
pub enum EventModel {
    /// The transport handshake completed.
    HandshakeDone,
    /// A text frame arrived from the peer.
    PeerText(Seq<char>),
    /// A binary frame arrived from the peer.
    PeerBinary(Seq<u8>),
    /// A transport-level ping arrived.
    PeerPing,
    /// A transport-level pong arrived.
    PeerPong,
    /// The peer signalled end-of-stream.
    PeerClose,
    /// The local producer handed in a text frame.
    LocalText(Seq<char>),
    /// A transport read or write failed.
    TransportFailed,
}

/// An action as the contracts see it.
#[verifier::ext_equal]
pub enum ActionModel {
    /// Nothing to perform.
    Idle,
    /// Write this text frame to the peer.
    SendText(Seq<char>),
    /// Hand this text frame to the local consumer.
    DeliverText(Seq<char>),
    /// Report a binary frame as a protocol violation.
    ReportBinary,
    /// The frame was not accepted.
    Rejected,
}

/// The per-connection state machine driving the relay.
pub struct RelaySession {
    /// Lifecycle state.
    pub state: SessionState,
    /// What to do with peer text frames.
    pub policy: PeerTextPolicy,
    /// What to do with protocol violations.
    pub strictness: Strictness,
    /// Queued local writes, oldest first.
    pub pending: Vec<String>,
}

impl View for RelaySession {
    type V = SessionModel;

    open spec fn view(&self) -> SessionModel {
        SessionModel {
            state: self.state,
            policy: self.policy,
            strictness: self.strictness,
            pending: self.pending@.map_values(|s: String| s@),
        }
    }
}

impl View for RelayEvent {
    type V = EventModel;

    open spec fn view(&self) -> EventModel {
        match self {
            RelayEvent::HandshakeDone => EventModel::HandshakeDone,
            RelayEvent::PeerText(t) => EventModel::PeerText(t@),
            RelayEvent::PeerBinary(b) => EventModel::PeerBinary(b@),
            RelayEvent::PeerPing(_) => EventModel::PeerPing,
            RelayEvent::PeerPong(_) => EventModel::PeerPong,
            RelayEvent::PeerClose => EventModel::PeerClose,
            RelayEvent::LocalText(t) => EventModel::LocalText(t@),
            RelayEvent::TransportFailed => EventModel::TransportFailed,
        }
    }
}

impl View for RelayAction {
    type V = ActionModel;

    open spec fn view(&self) -> ActionModel {
        match self {
            RelayAction::Idle => ActionModel::Idle,
            RelayAction::SendText(t) => ActionModel::SendText(t@),
            RelayAction::DeliverText(t) => ActionModel::DeliverText(t@),
            RelayAction::ReportBinary => ActionModel::ReportBinary,
            RelayAction::Rejected => ActionModel::Rejected,
        }
    }
}

/// The transition table of the session: for a state and an event, the next
/// state and the action the surrounding loop must perform.
pub open spec fn step_spec(s: SessionModel, e: EventModel) -> (SessionModel, ActionModel) {
    match s.state {
        SessionState::Connecting => match e {
            EventModel::HandshakeDone => (
                SessionModel { state: SessionState::Open, ..s },
                if s.policy == PeerTextPolicy::EchoUppercase {
                    ActionModel::SendText(greeting_text())
                } else {
                    ActionModel::Idle
                },
            ),
            EventModel::LocalText(t) => (
                SessionModel { pending: s.pending.push(t), ..s },
                ActionModel::Idle,
            ),
            EventModel::TransportFailed => (
                SessionModel { state: SessionState::Closing, ..s },
                ActionModel::Idle,
            ),
            _ => (s, ActionModel::Idle),
        },
        SessionState::Open => match e {
            EventModel::PeerText(t) => (
                s,
                if s.policy == PeerTextPolicy::EchoUppercase {
                    ActionModel::SendText(upper_of(t))
                } else {
                    ActionModel::DeliverText(t)
                },
            ),
            EventModel::PeerBinary(_) => (
                if s.strictness == Strictness::CloseOnViolation {
                    SessionModel { state: SessionState::Closing, ..s }
                } else {
                    s
                },
                ActionModel::ReportBinary,
            ),
            EventModel::PeerClose => (
                SessionModel { state: SessionState::Closing, ..s },
                ActionModel::Idle,
            ),
            EventModel::LocalText(t) => (
                SessionModel { pending: s.pending.push(t), ..s },
                ActionModel::Idle,
            ),
            EventModel::TransportFailed => (
                SessionModel { state: SessionState::Closing, ..s },
                ActionModel::Idle,
            ),
            _ => (s, ActionModel::Idle),
        },
        SessionState::Closing => match e {
            EventModel::LocalText(_) => (s, ActionModel::Rejected),
            _ => (s, ActionModel::Idle),
        },
        SessionState::Closed => match e {
            EventModel::LocalText(_) => (s, ActionModel::Rejected),
            _ => (s, ActionModel::Idle),
        },
    }
}

/// The state half of the transition table.
pub open spec fn step_state(s: SessionModel, e: EventModel) -> SessionModel {
    step_spec(s, e).0
}

/// The action half of the transition table.
pub open spec fn step_action(s: SessionModel, e: EventModel) -> ActionModel {
    step_spec(s, e).1
}

/// The writer's view of the session: the next queued local write, if any,
/// and the session after handing it out. Nothing is written before the
/// session opens or after it closes; a closing session whose queue has
/// drained closes for good.
pub open spec fn drain_spec(s: SessionModel) -> (SessionModel, Option<Seq<char>>) {
    match s.state {
        SessionState::Open => if s.pending.len() == 0 {
            (s, None)
        } else {
            (SessionModel { pending: s.pending.drop_first(), ..s }, Some(s.pending[0]))
        },
        SessionState::Closing => if s.pending.len() == 0 {
            (SessionModel { state: SessionState::Closed, ..s }, None)
        } else {
            (SessionModel { pending: s.pending.drop_first(), ..s }, Some(s.pending[0]))
        },
        _ => (s, None),
    }
}

impl RelaySession {
    /// A session freshly bound to an upgraded transport, waiting for the
    /// handshake to complete, with nothing queued.
    pub fn new(policy: PeerTextPolicy, strictness: Strictness) -> (session: RelaySession)
        ensures
            session@ == (SessionModel {
                state: SessionState::Connecting,
                policy: policy,
                strictness: strictness,
                pending: Seq::<Seq<char>>::empty(),
            }),
    {
        let session = RelaySession {
            state: SessionState::Connecting,
            policy,
            strictness,
            pending: Vec::new(),
        };
        proof {
            assert(session@.pending =~= Seq::<Seq<char>>::empty());
            assert(session@ =~= (SessionModel {
                state: SessionState::Connecting,
                policy: policy,
                strictness: strictness,
                pending: Seq::<Seq<char>>::empty(),
            }));
        }
        session
    }

    /// Feed one event into the session; the result is the action the
    /// surrounding loop must perform. The behaviour is exactly the
    /// transition table `step_spec`.
    pub fn step(&mut self, event: RelayEvent) -> (r: RelayAction)
        ensures
            final(self)@ == step_state(old(self)@, event@),
            r@ == step_action(old(self)@, event@),
    {
        match event {
            RelayEvent::HandshakeDone => {
                if self.state == SessionState::Connecting {
                    self.state = SessionState::Open;
                    proof {
                        assert(self@ =~= step_state(old(self)@, EventModel::HandshakeDone));
                    }
                    if self.policy == PeerTextPolicy::EchoUppercase {
                        RelayAction::SendText(greeting())
                    } else {
                        RelayAction::Idle
                    }
                } else {
                    RelayAction::Idle
                }
            },
            RelayEvent::PeerText(t) => {
                if self.state == SessionState::Open {
                    if self.policy == PeerTextPolicy::EchoUppercase {
                        RelayAction::SendText(to_upper(t.as_str()))
                    } else {
                        RelayAction::DeliverText(t)
                    }
                } else {
                    RelayAction::Idle
                }
            },
            RelayEvent::PeerBinary(_) => {
                if self.state == SessionState::Open {
                    if self.strictness == Strictness::CloseOnViolation {
                        self.state = SessionState::Closing;
                        proof {
                            assert(self@ =~= step_state(old(self)@, event@));
                        }
                    }
                    RelayAction::ReportBinary
                } else {
                    RelayAction::Idle
                }
            },
            RelayEvent::PeerPing(_) => RelayAction::Idle,
            RelayEvent::PeerPong(_) => RelayAction::Idle,
            RelayEvent::PeerClose => {
                if self.state == SessionState::Open {
                    self.state = SessionState::Closing;
                    proof {
                        assert(self@ =~= step_state(old(self)@, EventModel::PeerClose));
                    }
                }
                RelayAction::Idle
            },
            RelayEvent::LocalText(t) => {
                if self.state == SessionState::Connecting || self.state == SessionState::Open {
                    let ghost t_view = t@;
                    self.pending.push(t);
                    proof {
                        assert(self@.pending =~= old(self)@.pending.push(t_view));
                        assert(self@ =~= step_state(old(self)@, EventModel::LocalText(t_view)));
                    }
                    RelayAction::Idle
                } else {
                    RelayAction::Rejected
                }
            },
            RelayEvent::TransportFailed => {
                if self.state == SessionState::Connecting || self.state == SessionState::Open {
                    self.state = SessionState::Closing;
                    proof {
                        assert(self@ =~= step_state(old(self)@, EventModel::TransportFailed));
                    }
                }
                RelayAction::Idle
            },
        }
    }

    /// Hand the writer the next queued local write, oldest first. A
    /// closing session whose queue has drained transitions to `Closed`;
    /// an open one stays open and waits for more. The behaviour is exactly
    /// `drain_spec`.
    pub fn next_outgoing(&mut self) -> (r: Option<String>)
        ensures
            final(self)@ == drain_spec(old(self)@).0,
            (match r {
                Some(t) => drain_spec(old(self)@).1 == Some(t@),
                None => drain_spec(old(self)@).1 is None,
            }),
    {
        match self.state {
            SessionState::Open => {
                if self.pending.len() == 0 {
                    None
                } else {
                    let t = self.pending.remove(0);
                    proof {
                        assert(self@.pending =~= old(self)@.pending.drop_first());
                        assert(self@ =~= drain_spec(old(self)@).0);
                    }
                    Some(t)
                }
            },
            SessionState::Closing => {
                if self.pending.len() == 0 {
                    self.state = SessionState::Closed;
                    proof {
                        assert(self@ =~= drain_spec(old(self)@).0);
                    }
                    None
                } else {
                    let t = self.pending.remove(0);
                    proof {
                        assert(self@.pending =~= old(self)@.pending.drop_first());
                        assert(self@ =~= drain_spec(old(self)@).0);
                    }
                    Some(t)
                }
            },
            _ => None,
        }
    }

    /// The close grace period elapsed before the queue drained: the
    /// session tears down at once, dropping whatever was still queued.
    pub fn grace_expired(&mut self)
        requires
            old(self)@.state == SessionState::Closing,
        ensures
            final(self)@.state == SessionState::Closed,
            final(self)@.pending == Seq::<Seq<char>>::empty(),
            final(self)@.policy == old(self)@.policy,
            final(self)@.strictness == old(self)@.strictness,
    {
        self.state = SessionState::Closed;
        self.pending = Vec::new();
        proof {
            assert(self@.pending =~= Seq::<Seq<char>>::empty());
        }
    }
}

/// The greeting as a value.
fn greeting() -> (r: String)
    ensures
        r@ == greeting_text(),
{
    String::from_str("Why am I waiting?")
}

/// The frames an echo session sends back when fed a stream of peer text
/// frames, in order.
pub open spec fn echo_outputs(s: SessionModel, frames: Seq<Seq<char>>) -> Seq<Seq<char>>
    decreases frames.len(),
{
    if frames.len() == 0 {
        Seq::empty()
    } else {
        let next = step_spec(s, EventModel::PeerText(frames[0]));
        let head: Seq<Seq<char>> = match next.1 {
            ActionModel::SendText(t) => seq![t],
            _ => Seq::empty(),
        };
        head + echo_outputs(next.0, frames.drop_first())
    }
}

/// Law: an open echo session answers a stream of inbound text frames with
/// the uppercase transform of each frame, in arrival order, and stays
/// open with its queue untouched throughout.
pub proof fn lemma_echo_stream_in_order(s: SessionModel, frames: Seq<Seq<char>>)
    requires
        s.state == SessionState::Open,
        s.policy == PeerTextPolicy::EchoUppercase,
    ensures
        echo_outputs(s, frames) == frames.map_values(|f: Seq<char>| upper_of(f)),
    decreases frames.len(),
{
    let mapped = frames.map_values(|f: Seq<char>| upper_of(f));
    if frames.len() == 0 {
        assert(echo_outputs(s, frames) =~= mapped);
    } else {
        let next = step_spec(s, EventModel::PeerText(frames[0]));
        assert(next.0 == s);
        assert(next.1 == ActionModel::SendText(upper_of(frames[0])));
        lemma_echo_stream_in_order(s, frames.drop_first());
        assert(frames.drop_first().map_values(|f: Seq<char>| upper_of(f)) =~= mapped.drop_first());
        assert(echo_outputs(s, frames) =~= mapped);
    }
}

/// Law: a peer-side close never loses queued local writes: the session
/// moves to `Closing` with its queue intact.
pub proof fn lemma_peer_close_keeps_pending(s: SessionModel)
    requires
        s.state == SessionState::Open,
    ensures
        step_state(s, EventModel::PeerClose).state == SessionState::Closing,
        step_state(s, EventModel::PeerClose).pending == s.pending,
        step_action(s, EventModel::PeerClose) == ActionModel::Idle,
{
}

/// The writes a closing session still hands out before it closes.
pub open spec fn drained_outputs(s: SessionModel) -> Seq<Seq<char>>
    decreases s.pending.len(),
{
    if s.state != SessionState::Closing {
        Seq::empty()
    } else if s.pending.len() == 0 {
        Seq::empty()
    } else {
        seq![s.pending[0]] + drained_outputs(drain_spec(s).0)
    }
}

/// Law: a closing session completes every write that was in flight, in
/// order — the drain hands out exactly the queued frames — and only then
/// reaches `Closed`.
pub proof fn lemma_closing_drains_all(s: SessionModel)
    requires
        s.state == SessionState::Closing,
    ensures
        drained_outputs(s) == s.pending,
    decreases s.pending.len(),
{
    if s.pending.len() == 0 {
        assert(drained_outputs(s) =~= s.pending);
    } else {
        let rest = drain_spec(s).0;
        assert(rest.pending == s.pending.drop_first());
        lemma_closing_drains_all(rest);
        assert(seq![s.pending[0]] + s.pending.drop_first() =~= s.pending);
    }
}

/// Law: closing from the peer side while a local write is in flight
/// completes that write: the frame queued before the close is still
/// handed out, after whatever was queued ahead of it, and only after the
/// queue drains does the session reach `Closed`.
pub proof fn lemma_close_completes_inflight(s: SessionModel, w: Seq<char>)
    requires
        s.state == SessionState::Open,
    ensures
        ({
            let queued = step_state(s, EventModel::LocalText(w));
            let closing = step_state(queued, EventModel::PeerClose);
            &&& closing.state == SessionState::Closing
            &&& drained_outputs(closing) == s.pending.push(w)
        }),
{
    let queued = step_state(s, EventModel::LocalText(w));
    let closing = step_state(queued, EventModel::PeerClose);
    lemma_closing_drains_all(closing);
}

/// Law: a binary frame never crashes an open session. It is reported, and
/// per the configured strictness the session either goes on unchanged
/// (later text frames are still served) or closes cleanly with its queue
/// intact.
pub proof fn lemma_binary_frame_handled(s: SessionModel, b: Seq<u8>)
    requires
        s.state == SessionState::Open,
    ensures
        step_action(s, EventModel::PeerBinary(b)) == ActionModel::ReportBinary,
        s.strictness == Strictness::SkipViolations ==> step_state(s, EventModel::PeerBinary(b))
            == s,
        s.strictness == Strictness::CloseOnViolation ==> {
            &&& step_state(s, EventModel::PeerBinary(b)).state == SessionState::Closing
            &&& step_state(s, EventModel::PeerBinary(b)).pending == s.pending
        },
{
}

} // verus!
