use collab_doc::session::{continues_after, session_step, SessionAction, SessionEvent};
use collab_doc::types::{ClientMsg, Op};

#[test]
fn decoded_edit_goes_to_document() {
    let op = Op::Insert { request_time: 1, user: 7, content: 'q', parent: None };
    match session_step(3, SessionEvent::ClientText(Some(op))) {
        SessionAction::Edit { user, op: sent } => {
            assert_eq!(user, 3);
            assert_eq!(sent, op);
        }
        _ => panic!("expected an edit"),
    }
}

#[test]
fn undecodable_text_and_other_frames_are_ignored() {
    assert!(matches!(session_step(3, SessionEvent::ClientText(None)), SessionAction::Wait));
    assert!(matches!(session_step(3, SessionEvent::ClientOther), SessionAction::Wait));
    assert!(matches!(session_step(3, SessionEvent::Lagged(12)), SessionAction::Wait));
}

#[test]
fn lost_client_leaves_and_stops() {
    let action = session_step(8, SessionEvent::ClientGone);
    assert!(matches!(action, SessionAction::Leave { user: 8 }));
    assert!(!continues_after(&action));
    let action = session_step(8, SessionEvent::ForwardFailed);
    assert!(matches!(action, SessionAction::Leave { user: 8 }));
    assert!(!continues_after(&action));
}

#[test]
fn broadcast_is_forwarded() {
    let action = session_step(1, SessionEvent::Broadcast(ClientMsg::UserJoined(5)));
    assert!(matches!(action, SessionAction::Forward(ClientMsg::UserJoined(5))));
    assert!(continues_after(&action));
}

#[test]
fn closed_broadcast_stops() {
    let action = session_step(1, SessionEvent::BroadcastClosed);
    assert!(matches!(action, SessionAction::Stop));
    assert!(!continues_after(&action));
    assert!(continues_after(&SessionAction::Wait));
}
