use chat_core::codec::{decode, encode, MSG_SIZE};
use chat_core::handler::{
    is_quit_payload, CloseReason, ConnHandler, HandlerPhase, InboundAction, OutboundAction,
};
use chat_core::message::{ChatMessage, Endpoint};

fn endpoint() -> Endpoint {
    Endpoint { octet0: 127, octet1: 0, octet2: 0, octet3: 1, port: 6000 }
}

#[test]
fn quit_sentinel_closes_without_broadcast() {
    let mut h = ConnHandler::new(0, endpoint());
    let frame = encode(":quit").unwrap();
    let act = h.on_frame(&frame);
    assert!(matches!(act, InboundAction::Quit));
    assert_eq!(h.phase, HandlerPhase::Closing(CloseReason::QuitRequested));
}

#[test]
fn ordinary_frame_is_published_under_own_identity() {
    let mut h = ConnHandler::new(3, endpoint());
    let frame = encode("hello").unwrap();
    match h.on_frame(&frame) {
        InboundAction::Publish(m) => {
            assert_eq!(m.origin, 3);
            assert_eq!(m.text, "hello");
            assert_eq!(m.addr, endpoint());
        }
        InboundAction::Quit => panic!("ordinary text must not close the connection"),
    }
    assert_eq!(h.phase, HandlerPhase::Active);
}

#[test]
fn own_message_is_suppressed() {
    let h = ConnHandler::new(5, endpoint());
    let m = ChatMessage { origin: 5, text: String::from("hi"), addr: endpoint() };
    assert!(matches!(h.on_hub_message(&m), OutboundAction::Suppress));
}

#[test]
fn other_message_is_delivered_with_display_form() {
    let h = ConnHandler::new(1, endpoint());
    let m = ChatMessage { origin: 0, text: String::from("hello"), addr: endpoint() };
    match h.on_hub_message(&m) {
        OutboundAction::Deliver(frame) => {
            assert_eq!(frame.len(), MSG_SIZE);
            assert_eq!(decode(&frame), "[Client 0]: hello");
        }
        _ => panic!("a message from another client must be delivered"),
    }
}

#[test]
fn oversized_display_is_dropped_not_truncated() {
    let h = ConnHandler::new(1, endpoint());
    // 30 bytes of text: the display prefix pushes it past one frame.
    let m = ChatMessage {
        origin: 0,
        text: String::from("abcdefghijklmnopqrstuvwxyz0123"),
        addr: endpoint(),
    };
    assert!(matches!(h.on_hub_message(&m), OutboundAction::TooLarge));
}

#[test]
fn read_error_closes() {
    let mut h = ConnHandler::new(2, endpoint());
    h.on_read_error();
    assert_eq!(h.phase, HandlerPhase::Closing(CloseReason::ReadError));
}

#[test]
fn write_error_closes() {
    let mut h = ConnHandler::new(2, endpoint());
    h.on_write_error();
    assert_eq!(h.phase, HandlerPhase::Closing(CloseReason::WriteError));
}

#[test]
fn hub_failure_closes() {
    let mut h = ConnHandler::new(2, endpoint());
    h.on_hub_closed();
    assert_eq!(h.phase, HandlerPhase::Closing(CloseReason::HubClosed));
}

#[test]
fn announcements_carry_the_right_text_and_origin() {
    let mut h = ConnHandler::new(7, endpoint());
    let join = h.join_announcement();
    assert_eq!(join.origin, 7);
    assert_eq!(join.text, "has joined the chat");
    h.on_read_error();
    let leave = h.close();
    assert_eq!(leave.origin, 7);
    assert_eq!(leave.text, "has left the chat");
    assert_eq!(h.phase, HandlerPhase::Closed);
}

#[test]
fn quit_payload_recognition() {
    assert!(is_quit_payload(&b":quit".to_vec()));
    assert!(!is_quit_payload(&b":quit ".to_vec()));
    assert!(!is_quit_payload(&b"quit".to_vec()));
    assert!(!is_quit_payload(&b"".to_vec()));
}
