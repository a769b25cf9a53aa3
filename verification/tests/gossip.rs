use oracle_node::p2p::{
    gossip_step, handle_twap_message, GossipAction, GossipEvent, PeerMessageError, TwapMessage,
};
use oracle_node::signing::SigningService;

const KEY_ONE: &str = "0000000000000000000000000000000000000000000000000000000000000001";

fn signed_message(value: u64) -> TwapMessage {
    let service = SigningService::new(KEY_ONE).unwrap();
    TwapMessage {
        pair_id: "BTC/USD".to_owned(),
        twap: value.to_string(),
        period: 3600,
        signature: service.sign_twap(value),
        timestamp: 1_700_000_000,
        public_key: service.get_public_key().to_owned(),
    }
}

#[test]
fn valid_peer_attestation_is_accepted() {
    let message = signed_message(150);
    assert!(handle_twap_message(&message).is_ok());
    match gossip_step(GossipEvent::PeerMessage(Some(message))) {
        GossipAction::Accept(pair) => assert_eq!(pair, "BTC/USD"),
        _ => panic!("expected an accept"),
    }
}

#[test]
fn unparseable_public_key_is_rejected_and_the_loop_goes_on() {
    let mut message = signed_message(150);
    message.public_key = "not-hex".to_owned();
    assert_eq!(
        handle_twap_message(&message).unwrap_err(),
        PeerMessageError::InvalidSignature
    );
    match gossip_step(GossipEvent::PeerMessage(Some(message))) {
        GossipAction::Reject(_) => {},
        _ => panic!("expected a reject"),
    }
    // The next turn still services events: the rejection stayed inside
    // the loop.
    match gossip_step(GossipEvent::PeerMessage(Some(signed_message(7)))) {
        GossipAction::Accept(pair) => assert_eq!(pair, "BTC/USD"),
        _ => panic!("expected an accept"),
    }
}

#[test]
fn fractional_twap_text_is_malformed() {
    let mut message = signed_message(150);
    message.twap = "150.7".to_owned();
    assert_eq!(
        handle_twap_message(&message).unwrap_err(),
        PeerMessageError::MalformedValue
    );
}

#[test]
fn wrong_signer_is_rejected() {
    let other = SigningService::new(
        "0000000000000000000000000000000000000000000000000000000000000002",
    )
    .unwrap();
    let mut message = signed_message(150);
    message.public_key = other.get_public_key().to_owned();
    assert_eq!(
        handle_twap_message(&message).unwrap_err(),
        PeerMessageError::InvalidSignature
    );
}

#[test]
fn local_attestations_are_published() {
    let message = signed_message(9);
    let copy = message.duplicate();
    match gossip_step(GossipEvent::LocalAttestation(message)) {
        GossipAction::Publish(out) => assert_eq!(out, copy),
        _ => panic!("expected a publish"),
    }
}

#[test]
fn discovered_peers_are_dialed() {
    let addresses = vec!["/ip4/10.0.0.1/tcp/61234".to_owned()];
    match gossip_step(GossipEvent::PeerDiscovered(addresses.clone())) {
        GossipAction::Dial(out) => assert_eq!(out, addresses),
        _ => panic!("expected a dial"),
    }
}

#[test]
fn undecodable_payloads_and_other_events_are_ignored() {
    assert!(matches!(
        gossip_step(GossipEvent::PeerMessage(None)),
        GossipAction::Ignore
    ));
    assert!(matches!(gossip_step(GossipEvent::Other), GossipAction::Ignore));
}
