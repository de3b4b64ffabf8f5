use dragit_wasm::behaviour::{
    BehaviourAction, ProtocolEvent, TransferBehaviour, TransferEvent, TransferPayload, TIMEOUT,
};
use dragit_wasm::file::{FileToSend, Payload};

fn file(peer: &str, text: &str) -> FileToSend {
    FileToSend::new(&peer.to_string(), Payload::Text(text.to_string()), None).unwrap()
}

fn received(name: &str) -> TransferPayload {
    TransferPayload {
        name: name.to_string(),
        hash: "h".to_string(),
        payload: Payload::Path("/tmp/x".to_string()),
        size_bytes: 3,
        target_path: None,
    }
}

fn notified(a: Option<BehaviourAction>) -> (String, String) {
    match a {
        Some(BehaviourAction::NotifyHandler { peer_id, file }) => (peer_id, file.name),
        _ => panic!("expected an offer"),
    }
}

fn generated(a: Option<BehaviourAction>) -> String {
    match a {
        Some(BehaviourAction::GenerateEvent(TransferEvent(p))) => p.name,
        _ => panic!("expected a received transfer"),
    }
}

#[test]
fn idle_behaviour_polls_nothing() {
    let mut b = TransferBehaviour::new(None);
    assert!(b.poll().is_none());
    assert!(b.poll().is_none());
}

#[test]
fn queued_file_is_offered_to_its_peer() {
    let mut b = TransferBehaviour::new(None);
    b.push_file(file("QmA", "first text"));
    assert_eq!(notified(b.poll()), ("QmA".to_string(), "first (...)".to_string()));
    assert!(b.poll().is_none());
}

#[test]
fn latest_file_is_offered_first() {
    let mut b = TransferBehaviour::new(None);
    b.push_file(file("QmA", "aaaaaa"));
    b.push_file(file("QmB", "bbbbbb"));
    assert_eq!(notified(b.poll()).0, "QmB");
    assert_eq!(notified(b.poll()).0, "QmA");
    assert!(b.poll().is_none());
}

#[test]
fn files_go_before_received_transfers() {
    let mut b = TransferBehaviour::new(None);
    b.inject_event(ProtocolEvent::Received(received("in.txt")));
    b.push_file(file("QmA", "outgoing"));
    assert_eq!(notified(b.poll()).0, "QmA");
    assert_eq!(generated(b.poll()), "in.txt");
    assert!(b.poll().is_none());
}

#[test]
fn received_transfers_come_out_latest_first() {
    let mut b = TransferBehaviour::new(None);
    b.inject_event(ProtocolEvent::Received(received("one")));
    b.inject_event(ProtocolEvent::Received(received("two")));
    assert_eq!(generated(b.poll()), "two");
    assert_eq!(generated(b.poll()), "one");
    assert!(b.poll().is_none());
}

#[test]
fn sent_reports_are_ignored() {
    let mut b = TransferBehaviour::new(None);
    b.inject_event(ProtocolEvent::Sent);
    assert!(b.poll().is_none());
}

#[test]
fn handler_settings() {
    let b = TransferBehaviour::new(Some("/downloads".to_string()));
    let h = b.new_handler();
    assert_eq!(h.keep_alive_secs, 5000);
    assert_eq!(h.outbound_substream_timeout_secs, 600);
    assert_eq!(h.substream_timeout_secs, TIMEOUT);
    assert_eq!(h.max_dial_negotiated, 8);
    assert_eq!(h.template.name, "default");
    assert_eq!(h.template.hash, "");
    assert!(matches!(h.template.payload, Payload::Path(ref p) if p == "."));
    assert_eq!(h.template.size_bytes, 0);
    assert_eq!(h.template.target_path, Some("/downloads".to_string()));
}

#[test]
fn queued_polls_hand_out_every_item_once() {
    let mut b = TransferBehaviour::new(None);
    b.inject_event(ProtocolEvent::Received(received("r1")));
    b.push_file(file("QmA", "aaaaaa"));
    b.inject_event(ProtocolEvent::Received(received("r2")));
    b.push_file(file("QmB", "bbbbbb"));
    assert_eq!(notified(b.poll()), ("QmB".to_string(), "bbbbb (...)".to_string()));
    assert_eq!(notified(b.poll()), ("QmA".to_string(), "aaaaa (...)".to_string()));
    assert_eq!(generated(b.poll()), "r2");
    assert_eq!(generated(b.poll()), "r1");
    assert!(b.poll().is_none());
}
