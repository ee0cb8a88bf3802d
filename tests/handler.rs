use p2p_chat::handler::{Handler, HandlerEvent, NegotiationError};
use p2p_chat::protocol::MsgContent;

fn msg(bytes: &[u8]) -> MsgContent {
    MsgContent { data: bytes.to_vec() }
}

fn outbound_payload(ev: Option<HandlerEvent>) -> Vec<u8> {
    match ev {
        Some(HandlerEvent::OutboundRequest(m)) => m.data,
        other => panic!("expected an outbound request, got {:?}", other),
    }
}

fn inbound_payload(ev: Option<HandlerEvent>) -> Vec<u8> {
    match ev {
        Some(HandlerEvent::InboundReceived(m)) => m.data,
        other => panic!("expected an inbound message, got {:?}", other),
    }
}

#[test]
fn two_sends_come_out_in_order() {
    let mut h = Handler::new();
    h.notify_send(msg(b"hello"));
    h.notify_send(msg(b"world"));
    assert_eq!(outbound_payload(h.poll()), b"hello".to_vec());
    assert_eq!(outbound_payload(h.poll()), b"world".to_vec());
    assert!(h.poll().is_none());
}

#[test]
fn mixed_events_come_out_in_order() {
    let mut h = Handler::new();
    h.notify_send(msg(b"one"));
    h.notify_inbound_received(b"two".to_vec());
    h.notify_send(msg(b"three"));
    assert_eq!(outbound_payload(h.poll()), b"one".to_vec());
    assert_eq!(inbound_payload(h.poll()), b"two".to_vec());
    assert_eq!(outbound_payload(h.poll()), b"three".to_vec());
    assert!(h.poll().is_none());
}

#[test]
fn later_events_follow_partly_drained_queue() {
    let mut h = Handler::new();
    h.notify_send(msg(b"a"));
    h.notify_send(msg(b"b"));
    assert_eq!(outbound_payload(h.poll()), b"a".to_vec());
    h.notify_inbound_received(b"c".to_vec());
    assert_eq!(outbound_payload(h.poll()), b"b".to_vec());
    assert_eq!(inbound_payload(h.poll()), b"c".to_vec());
}

#[test]
fn empty_handler_has_no_work() {
    let mut h = Handler::new();
    assert!(h.is_idle());
    assert!(h.poll().is_none());
    assert!(h.is_idle());
}

#[test]
fn idle_tracks_queue() {
    let mut h = Handler::new();
    h.notify_inbound_received(Vec::new());
    assert!(!h.is_idle());
    assert_eq!(inbound_payload(h.poll()), Vec::<u8>::new());
    assert!(h.is_idle());
}

#[test]
fn keep_alive_in_every_state() {
    let mut h = Handler::new();
    assert!(h.keep_alive());
    h.notify_send(msg(b"x"));
    assert!(h.keep_alive());
    let _ = h.poll();
    assert!(h.keep_alive());
    let _ = h.poll();
    assert!(h.keep_alive());
}

#[test]
fn negotiation_error_is_reported_and_keeps_queue() {
    let mut h = Handler::new();
    h.notify_send(msg(b"first"));
    h.notify_negotiation_error(NegotiationError::Unsupported);
    h.notify_send(msg(b"second"));
    assert_eq!(outbound_payload(h.poll()), b"first".to_vec());
    match h.poll() {
        Some(HandlerEvent::SendFailed(e)) => assert_eq!(e, NegotiationError::Unsupported),
        other => panic!("expected a failure report, got {:?}", other),
    }
    assert_eq!(outbound_payload(h.poll()), b"second".to_vec());
    assert!(h.poll().is_none());
}
