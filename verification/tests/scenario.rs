//! The end-to-end exchange, run through the library's own hub and
//! handlers: client A joins, client B joins, A says hello, B quits.

use chat_core::codec::{decode, encode};
use chat_core::dispatcher::Dispatcher;
use chat_core::handler::{CloseReason, ConnHandler, HandlerPhase, InboundAction, OutboundAction};
use chat_core::hub::Hub;
use chat_core::message::Endpoint;

fn endpoint(port: u16) -> Endpoint {
    Endpoint { octet0: 127, octet1: 0, octet2: 0, octet3: 1, port }
}

#[test]
fn two_clients_exchange_and_one_quits() {
    let mut hub = Hub::new(16);
    let mut dispatcher = Dispatcher::new();

    // Client A connects: announce, then subscribe.
    let id_a = dispatcher.accept().unwrap();
    assert_eq!(id_a, 0);
    let mut a = ConnHandler::new(id_a, endpoint(50001));
    hub.publish(&a.join_announcement());
    let sub_a = hub.subscribe();

    // Client B connects the same way.
    let id_b = dispatcher.accept().unwrap();
    assert_eq!(id_b, 1);
    let mut b = ConnHandler::new(id_b, endpoint(50002));
    hub.publish(&b.join_announcement());
    let sub_b = hub.subscribe();

    // A hears that B joined; B, having subscribed after its own
    // announcement, hears nothing.
    let joined = hub.recv(sub_a).unwrap();
    match a.on_hub_message(&joined) {
        OutboundAction::Deliver(frame) => {
            assert_eq!(decode(&frame), "[Client 1]: has joined the chat")
        }
        _ => panic!("A must be told that B joined"),
    }
    assert!(hub.recv(sub_b).is_none());

    // A sends "hello".
    let frame = encode("hello").unwrap();
    match a.on_frame(&frame) {
        InboundAction::Publish(m) => hub.publish(&m),
        InboundAction::Quit => panic!("hello is not the quit sentinel"),
    }

    // B receives it in display form; A does not get its own message back.
    let m = hub.recv(sub_b).unwrap();
    match b.on_hub_message(&m) {
        OutboundAction::Deliver(frame) => assert_eq!(decode(&frame), "[Client 0]: hello"),
        _ => panic!("B must receive A's message"),
    }
    let echo = hub.recv(sub_a).unwrap();
    assert!(matches!(a.on_hub_message(&echo), OutboundAction::Suppress));

    // B sends the quit sentinel: nothing is broadcast, B closes, and its
    // leave announcement reaches A.
    let quit = encode(":quit").unwrap();
    assert!(matches!(b.on_frame(&quit), InboundAction::Quit));
    assert_eq!(b.phase, HandlerPhase::Closing(CloseReason::QuitRequested));
    hub.publish(&b.close());
    assert_eq!(b.phase, HandlerPhase::Closed);

    let left = hub.recv(sub_a).unwrap();
    match a.on_hub_message(&left) {
        OutboundAction::Deliver(frame) => {
            assert_eq!(decode(&frame), "[Client 1]: has left the chat")
        }
        _ => panic!("A must be told that B left"),
    }

    // A is untouched by B's departure.
    assert_eq!(a.phase, HandlerPhase::Active);
}
