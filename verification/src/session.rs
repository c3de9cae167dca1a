//! The per-connection dispatch of inbound traffic.
//!
//! A connection session owns one peer's identity for the connection's
//! lifetime. Its read loop classifies whatever arrives on the connection and
//! acts on it; the classification is the decision logic here, so that the
//! loop around it only performs the chosen action: submit a command to the
//! room, answer a heartbeat, ignore a frame, or wind the session down.

use vstd::prelude::*;

use crate::codec::{decode_request, spec_decode_request, InboundFrame, InboundFrameView};
use crate::protocol::{RequestView, ServerRequest};

verus! {

/// One thing arriving on a session's connection.
#[derive(Debug, PartialEq)]
pub enum SessionEvent {
    /// A binary frame: one tag byte and a payload.
    Frame(Vec<u8>),
    /// A transport-level ping.
    Ping,
    /// The peer closed the connection.
    Close,
    /// Anything else the transport may carry; none of it is protocol.
    Other,
}

/// The mathematical shape of a [`SessionEvent`].
pub enum SessionEventView {
    Frame(Seq<u8>),
    Ping,
    Close,
    Other,
}

impl View for SessionEvent {
    type V = SessionEventView;

    open spec fn view(&self) -> SessionEventView {
        match self {
            SessionEvent::Frame(b) => SessionEventView::Frame(b@),
            SessionEvent::Ping => SessionEventView::Ping,
            SessionEvent::Close => SessionEventView::Close,
            SessionEvent::Other => SessionEventView::Other,
        }
    }
}

/// What the session does about one inbound event.
#[derive(Debug, PartialEq)]
pub enum SessionAction {
    /// Submit the payload to the room as a document update.
    SubmitUpdate(Vec<u8>),
    /// Submit the payload to the room as ephemeral presence data.
    SubmitAwareness(Vec<u8>),
    /// Ask the room for a full-state snapshot and forward it to this peer.
    RequestSnapshot,
    /// Answer with a heartbeat echo.
    ReplyPingPong,
    /// Do nothing: an unknown or empty frame, or non-protocol traffic, never
    /// ends the connection.
    Ignore,
    /// The connection is over: deregister the peer and stop.
    Stop,
}

/// The mathematical shape of a [`SessionAction`].
pub enum SessionActionView {
    SubmitUpdate(Seq<u8>),
    SubmitAwareness(Seq<u8>),
    RequestSnapshot,
    ReplyPingPong,
    Ignore,
    Stop,
}

impl View for SessionAction {
    type V = SessionActionView;

    open spec fn view(&self) -> SessionActionView {
        match self {
            SessionAction::SubmitUpdate(b) => SessionActionView::SubmitUpdate(b@),
            SessionAction::SubmitAwareness(b) => SessionActionView::SubmitAwareness(b@),
            SessionAction::RequestSnapshot => SessionActionView::RequestSnapshot,
            SessionAction::ReplyPingPong => SessionActionView::ReplyPingPong,
            SessionAction::Ignore => SessionActionView::Ignore,
            SessionAction::Stop => SessionActionView::Stop,
        }
    }
}

/// The read loop's decision table: an update frame becomes an update
/// command, an awareness frame an awareness command, a snapshot-request
/// frame a snapshot request, a heartbeat (frame or transport ping) an echo;
/// an unknown or empty frame is ignored, never fatal; a close ends the
/// session; everything else is ignored.
pub open spec fn spec_session_dispatch(ev: SessionEventView) -> SessionActionView {
    match ev {
        SessionEventView::Frame(b) => match spec_decode_request(b) {
            InboundFrameView::Known(RequestView::Update(p)) => SessionActionView::SubmitUpdate(p),
            InboundFrameView::Known(RequestView::Awareness(p)) => SessionActionView::SubmitAwareness(
                p,
            ),
            InboundFrameView::Known(
                RequestView::SnapshotRequest,
            ) => SessionActionView::RequestSnapshot,
            InboundFrameView::Known(RequestView::PingPong) => SessionActionView::ReplyPingPong,
            InboundFrameView::Unknown(_) => SessionActionView::Ignore,
            InboundFrameView::Malformed => SessionActionView::Ignore,
        },
        SessionEventView::Ping => SessionActionView::ReplyPingPong,
        SessionEventView::Close => SessionActionView::Stop,
        SessionEventView::Other => SessionActionView::Ignore,
    }
}

/// Decides what to do about one inbound event, exactly as
/// [`spec_session_dispatch`] says.
pub fn session_dispatch(ev: SessionEvent) -> (a: SessionAction)
    ensures
        a@ == spec_session_dispatch(ev@),
{
    match ev {
        SessionEvent::Frame(bytes) => match decode_request(bytes.as_slice()) {
            InboundFrame::Known(ServerRequest::Update(p)) => SessionAction::SubmitUpdate(p),
            InboundFrame::Known(ServerRequest::Awareness(p)) => SessionAction::SubmitAwareness(p),
            InboundFrame::Known(ServerRequest::SnapshotRequest) => SessionAction::RequestSnapshot,
            InboundFrame::Known(ServerRequest::PingPong) => SessionAction::ReplyPingPong,
            InboundFrame::Unknown(_) => SessionAction::Ignore,
            InboundFrame::Malformed => SessionAction::Ignore,
        },
        SessionEvent::Ping => SessionAction::ReplyPingPong,
        SessionEvent::Close => SessionAction::Stop,
        SessionEvent::Other => SessionAction::Ignore,
    }
}

/// Law: no inbound traffic is fatal but a close. The session stops only when
/// the peer closes the connection; in particular an unrecognized or empty
/// frame is ignored and the connection lives on.
pub proof fn lemma_only_close_stops(ev: SessionEventView)
    ensures
        spec_session_dispatch(ev) == SessionActionView::Stop <==> ev == SessionEventView::Close,
{
}

/// The phase a session is in. It joins its room first, then pushes one full
/// snapshot to its own peer before interpreting any frame, then pumps frames
/// until the connection is over, and deregisters exactly once on the way
/// into its terminal phase.
#[derive(Clone, Copy, Debug, PartialEq, Eq, Structural)]
pub enum SessionPhase {
    /// The join command has not been accepted by the room's mailbox yet.
    Joining,
    /// Joined; the initial full-state snapshot has not been forwarded yet.
    Syncing,
    /// Synchronized; inbound frames are interpreted.
    Active,
    /// Terminal: aborted before joining, or left after it.
    Closed,
}

/// One thing that happens to a session, at the phase level.
#[derive(Debug, PartialEq)]
pub enum SessionInput {
    /// The room's mailbox accepted the join command.
    JoinAccepted,
    /// The room's mailbox is closed; the session cannot join.
    JoinRefused,
    /// The initial full-state snapshot was placed on the peer's own channel.
    SnapshotForwarded,
    /// One inbound item arrived while the session is active.
    Inbound(SessionEvent),
    /// The connection's inbound stream is exhausted.
    Ended,
}

/// The mathematical shape of a [`SessionInput`].
pub enum SessionInputView {
    JoinAccepted,
    JoinRefused,
    SnapshotForwarded,
    Inbound(SessionEventView),
    Ended,
}

impl View for SessionInput {
    type V = SessionInputView;

    open spec fn view(&self) -> SessionInputView {
        match self {
            SessionInput::JoinAccepted => SessionInputView::JoinAccepted,
            SessionInput::JoinRefused => SessionInputView::JoinRefused,
            SessionInput::SnapshotForwarded => SessionInputView::SnapshotForwarded,
            SessionInput::Inbound(ev) => SessionInputView::Inbound(ev@),
            SessionInput::Ended => SessionInputView::Ended,
        }
    }
}

/// What the session must do on one phase transition.
#[derive(Debug, PartialEq)]
pub enum SessionDirective {
    /// Ask the room for a full snapshot and push it onto the peer's own
    /// channel before reading anything further.
    RequestInitialSnapshot,
    /// Act on one interpreted inbound event.
    Dispatch(SessionAction),
    /// Deregister the peer from the room; emitted exactly once.
    Leave,
    /// Tear the connection down; the peer was never registered, so there is
    /// nothing to deregister.
    Abort,
    /// Do nothing.
    Nothing,
}

/// The mathematical shape of a [`SessionDirective`].
pub enum SessionDirectiveView {
    RequestInitialSnapshot,
    Dispatch(SessionActionView),
    Leave,
    Abort,
    Nothing,
}

impl View for SessionDirective {
    type V = SessionDirectiveView;

    open spec fn view(&self) -> SessionDirectiveView {
        match self {
            SessionDirective::RequestInitialSnapshot => SessionDirectiveView::RequestInitialSnapshot,
            SessionDirective::Dispatch(a) => SessionDirectiveView::Dispatch(a@),
            SessionDirective::Leave => SessionDirectiveView::Leave,
            SessionDirective::Abort => SessionDirectiveView::Abort,
            SessionDirective::Nothing => SessionDirectiveView::Nothing,
        }
    }
}

/// The session's phase machine. A session joins first and aborts at once if
/// the room is gone; once joined it forwards one full snapshot before any
/// frame is interpreted; while active it dispatches each inbound event; it
/// leaves exactly once, on the transition into the terminal phase, whether
/// the peer closed or the stream simply ended; and a closed session does
/// nothing further. Inputs that cannot occur in a phase change nothing.
pub open spec fn spec_session_transition(phase: SessionPhase, input: SessionInputView) -> (
    SessionPhase,
    SessionDirectiveView,
) {
    match (phase, input) {
        (SessionPhase::Joining, SessionInputView::JoinAccepted) => (
            SessionPhase::Syncing,
            SessionDirectiveView::RequestInitialSnapshot,
        ),
        (SessionPhase::Joining, SessionInputView::JoinRefused) => (
            SessionPhase::Closed,
            SessionDirectiveView::Abort,
        ),
        (SessionPhase::Joining, _) => (SessionPhase::Joining, SessionDirectiveView::Nothing),
        (SessionPhase::Syncing, SessionInputView::SnapshotForwarded) => (
            SessionPhase::Active,
            SessionDirectiveView::Nothing,
        ),
        (SessionPhase::Syncing, SessionInputView::Ended) => (
            SessionPhase::Closed,
            SessionDirectiveView::Leave,
        ),
        (SessionPhase::Syncing, _) => (SessionPhase::Syncing, SessionDirectiveView::Nothing),
        (SessionPhase::Active, SessionInputView::Inbound(ev)) => {
            if spec_session_dispatch(ev) == SessionActionView::Stop {
                (SessionPhase::Closed, SessionDirectiveView::Leave)
            } else {
                (SessionPhase::Active, SessionDirectiveView::Dispatch(spec_session_dispatch(ev)))
            }
        },
        (SessionPhase::Active, SessionInputView::Ended) => (
            SessionPhase::Closed,
            SessionDirectiveView::Leave,
        ),
        (SessionPhase::Active, _) => (SessionPhase::Active, SessionDirectiveView::Nothing),
        (SessionPhase::Closed, _) => (SessionPhase::Closed, SessionDirectiveView::Nothing),
    }
}

/// Advances the session's phase machine by one input, exactly as
/// [`spec_session_transition`] says.
pub fn session_transition(phase: SessionPhase, input: SessionInput) -> (r: (
    SessionPhase,
    SessionDirective,
))
    ensures
        r.0 == spec_session_transition(phase, input@).0,
        r.1@ == spec_session_transition(phase, input@).1,
{
    match (phase, input) {
        (SessionPhase::Joining, SessionInput::JoinAccepted) => (
            SessionPhase::Syncing,
            SessionDirective::RequestInitialSnapshot,
        ),
        (SessionPhase::Joining, SessionInput::JoinRefused) => (
            SessionPhase::Closed,
            SessionDirective::Abort,
        ),
        (SessionPhase::Joining, _) => (SessionPhase::Joining, SessionDirective::Nothing),
        (SessionPhase::Syncing, SessionInput::SnapshotForwarded) => (
            SessionPhase::Active,
            SessionDirective::Nothing,
        ),
        (SessionPhase::Syncing, SessionInput::Ended) => (SessionPhase::Closed,
        SessionDirective::Leave),
        (SessionPhase::Syncing, _) => (SessionPhase::Syncing, SessionDirective::Nothing),
        (SessionPhase::Active, SessionInput::Inbound(ev)) => match session_dispatch(ev) {
            SessionAction::Stop => (SessionPhase::Closed, SessionDirective::Leave),
            other => (SessionPhase::Active, SessionDirective::Dispatch(other)),
        },
        (SessionPhase::Active, SessionInput::Ended) => (SessionPhase::Closed,
        SessionDirective::Leave),
        (SessionPhase::Active, _) => (SessionPhase::Active, SessionDirective::Nothing),
        (SessionPhase::Closed, _) => (SessionPhase::Closed, SessionDirective::Nothing),
    }
}

/// Whether a directive deregisters the peer.
pub open spec fn is_leave() -> spec_fn(SessionDirectiveView) -> bool {
    |d: SessionDirectiveView| d is Leave
}

/// The directives a session emits over a whole input sequence, in order.
pub open spec fn session_trace(phase: SessionPhase, inputs: Seq<SessionInputView>) -> Seq<
    SessionDirectiveView,
>
    decreases inputs.len(),
{
    if inputs.len() == 0 {
        Seq::empty()
    } else {
        let r = spec_session_transition(phase, inputs[0]);
        seq![r.1] + session_trace(r.0, inputs.drop_first())
    }
}

/// Law: the session interprets no frame before it is synchronized. While
/// joining, and while the initial snapshot is still owed, no inbound event
/// is dispatched; and the only way into the active phase is forwarding that
/// snapshot.
pub proof fn lemma_no_dispatch_before_snapshot(p: SessionPhase, i: SessionInputView)
    ensures
        !(spec_session_transition(SessionPhase::Joining, i).1 is Dispatch),
        !(spec_session_transition(SessionPhase::Syncing, i).1 is Dispatch),
        spec_session_transition(p, i).0 == SessionPhase::Active ==> (p == SessionPhase::Active || (
        p == SessionPhase::Syncing && i == SessionInputView::SnapshotForwarded)),
{
}

/// Law: a failed join submission aborts the session at once — fatal for this
/// session, not for the room — and nothing else ever aborts one.
pub proof fn lemma_abort_iff_join_refused(p: SessionPhase, i: SessionInputView)
    ensures
        spec_session_transition(p, i).1 == SessionDirectiveView::Abort <==> (p
            == SessionPhase::Joining && i == SessionInputView::JoinRefused),
{
}

/// Law: deregistration happens only on the transition into the terminal
/// phase, and a closed session emits nothing further — so no session leaves
/// twice.
pub proof fn lemma_leave_enters_closed(p: SessionPhase, i: SessionInputView)
    ensures
        spec_session_transition(p, i).1 == SessionDirectiveView::Leave ==> spec_session_transition(
            p,
            i,
        ).0 == SessionPhase::Closed,
        spec_session_transition(SessionPhase::Closed, i) == (
            SessionPhase::Closed,
            SessionDirectiveView::Nothing,
        ),
{
}

} // verus!
