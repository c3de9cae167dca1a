use scriptre::codec::{TAG_AWARENESS, TAG_PINGPONG, TAG_SNAPSHOT_REQ, TAG_UPDATE};
use scriptre::session::{
    session_dispatch, session_transition, SessionAction, SessionDirective, SessionEvent,
    SessionInput, SessionPhase,
};

#[test]
fn update_frame_becomes_update_command() {
    let a = session_dispatch(SessionEvent::Frame(vec![TAG_UPDATE, 1, 2]));
    assert!(matches!(a, SessionAction::SubmitUpdate(p) if p == vec![1, 2]));
}

#[test]
fn awareness_frame_becomes_awareness_command() {
    let a = session_dispatch(SessionEvent::Frame(vec![TAG_AWARENESS, 3]));
    assert!(matches!(a, SessionAction::SubmitAwareness(p) if p == vec![3]));
}

#[test]
fn snapshot_request_frame_asks_the_room() {
    let a = session_dispatch(SessionEvent::Frame(vec![TAG_SNAPSHOT_REQ]));
    assert!(matches!(a, SessionAction::RequestSnapshot));
}

#[test]
fn heartbeats_are_echoed() {
    assert!(matches!(
        session_dispatch(SessionEvent::Frame(vec![TAG_PINGPONG])),
        SessionAction::ReplyPingPong
    ));
    assert!(matches!(session_dispatch(SessionEvent::Ping), SessionAction::ReplyPingPong));
}

#[test]
fn unknown_and_empty_frames_are_ignored_not_fatal() {
    assert!(matches!(
        session_dispatch(SessionEvent::Frame(vec![0x7f, 9, 9])),
        SessionAction::Ignore
    ));
    assert!(matches!(session_dispatch(SessionEvent::Frame(vec![])), SessionAction::Ignore));
    assert!(matches!(session_dispatch(SessionEvent::Other), SessionAction::Ignore));
}

#[test]
fn only_close_stops_the_session() {
    assert!(matches!(session_dispatch(SessionEvent::Close), SessionAction::Stop));
}

#[test]
fn session_walks_its_phases_in_order() {
    // Join, then one snapshot before any frame, then dispatch, then leave.
    let (phase, d) = session_transition(SessionPhase::Joining, SessionInput::JoinAccepted);
    assert_eq!(phase, SessionPhase::Syncing);
    assert_eq!(d, SessionDirective::RequestInitialSnapshot);

    // An inbound frame before the snapshot handshake is not dispatched.
    let (phase, d) =
        session_transition(phase, SessionInput::Inbound(SessionEvent::Frame(vec![TAG_UPDATE, 1])));
    assert_eq!(phase, SessionPhase::Syncing);
    assert_eq!(d, SessionDirective::Nothing);

    let (phase, d) = session_transition(phase, SessionInput::SnapshotForwarded);
    assert_eq!(phase, SessionPhase::Active);
    assert_eq!(d, SessionDirective::Nothing);

    let (phase, d) =
        session_transition(phase, SessionInput::Inbound(SessionEvent::Frame(vec![TAG_UPDATE, 1])));
    assert_eq!(phase, SessionPhase::Active);
    assert_eq!(d, SessionDirective::Dispatch(SessionAction::SubmitUpdate(vec![1])));

    let (phase, d) = session_transition(phase, SessionInput::Inbound(SessionEvent::Close));
    assert_eq!(phase, SessionPhase::Closed);
    assert_eq!(d, SessionDirective::Leave);

    // A closed session emits nothing further: the leave is never repeated.
    let (phase, d) = session_transition(phase, SessionInput::Ended);
    assert_eq!(phase, SessionPhase::Closed);
    assert_eq!(d, SessionDirective::Nothing);
}

#[test]
fn refused_join_aborts_without_leave() {
    let (phase, d) = session_transition(SessionPhase::Joining, SessionInput::JoinRefused);
    assert_eq!(phase, SessionPhase::Closed);
    assert_eq!(d, SessionDirective::Abort);
    let (_, d) = session_transition(phase, SessionInput::Ended);
    assert_eq!(d, SessionDirective::Nothing);
}

#[test]
fn stream_end_without_close_frame_still_leaves_once() {
    let (phase, _) = session_transition(SessionPhase::Joining, SessionInput::JoinAccepted);
    let (phase, _) = session_transition(phase, SessionInput::SnapshotForwarded);
    let (phase, d) = session_transition(phase, SessionInput::Ended);
    assert_eq!(phase, SessionPhase::Closed);
    assert_eq!(d, SessionDirective::Leave);
    let (_, d) = session_transition(phase, SessionInput::Ended);
    assert_eq!(d, SessionDirective::Nothing);
}
