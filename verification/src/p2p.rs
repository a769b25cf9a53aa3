//! The gossip layer's decision logic: what one turn of the peer-to-peer
//! event loop does with a locally produced attestation, a discovered
//! peer, or a message received from the network.
//!
//! The loop itself multiplexes the inbound queue and the transport and
//! is run by the caller that owns the swarm; every decision it takes is
//! made here.
use vstd::prelude::*;

use crate::numeric::{parse_i64, parse_i64_spec};
use crate::signing::{spec_verify_twap, verify_twap};

verus! {

/// A signed, broadcastable TWAP claim, as it travels between peers.
///
/// The wire form is a JSON object with exactly these field names; they
/// are part of the interoperability contract between nodes.
#[derive(Debug, PartialEq, Eq)]
pub struct TwapMessage {
    pub pair_id: String,
    pub twap: String,
    pub period: u64,
    pub signature: String,
    pub timestamp: u64,
    pub public_key: String,
}

/// The mathematical content of an attestation.
pub struct TwapMessageView {
    pub pair_id: Seq<char>,
    pub twap: Seq<char>,
    pub period: u64,
    pub signature: Seq<char>,
    pub timestamp: u64,
    pub public_key: Seq<char>,
}

impl View for TwapMessage {
    type V = TwapMessageView;

    open spec fn view(&self) -> TwapMessageView {
        TwapMessageView {
            pair_id: self.pair_id@,
            twap: self.twap@,
            period: self.period,
            signature: self.signature@,
            timestamp: self.timestamp,
            public_key: self.public_key@,
        }
    }
}

impl TwapMessage {
    /// A field-by-field copy with the same content.
    pub fn duplicate(&self) -> (r: TwapMessage)
        ensures
            r@ == self@,
    {
        TwapMessage {
            pair_id: self.pair_id.clone(),
            twap: self.twap.clone(),
            period: self.period,
            signature: self.signature.clone(),
            timestamp: self.timestamp,
            public_key: self.public_key.clone(),
        }
    }
}

/// Why a peer attestation was rejected.
#[derive(PartialEq, Eq, Structural, Clone, Copy, Debug)]
pub enum PeerMessageError {
    /// The TWAP text does not parse as an integer.
    MalformedValue,
    /// The signature does not check out for the embedded value and key.
    InvalidSignature,
}

/// Checks a peer attestation: the embedded TWAP text must parse as an
/// integer and the embedded signature must verify for that value under
/// the embedded public key. A malformed message is rejected, never a
/// failure that escapes the loop.
pub fn handle_twap_message(message: &TwapMessage) -> (r: Result<(), PeerMessageError>)
    ensures
        r is Ok <==> spec_verify_twap(message@.twap, message@.signature, message@.public_key),
        r matches Err(PeerMessageError::MalformedValue) ==> parse_i64_spec(message@.twap)
            is None,
        r matches Err(PeerMessageError::InvalidSignature) ==> parse_i64_spec(message@.twap)
            is Some,
{
    match parse_i64(message.twap.as_str()) {
        None => Err(PeerMessageError::MalformedValue),
        Some(_) => {
            if verify_twap(
                message.twap.as_str(),
                message.signature.as_str(),
                message.public_key.as_str(),
            ) {
                Ok(())
            } else {
                Err(PeerMessageError::InvalidSignature)
            }
        },
    }
}

/// One input to a turn of the gossip loop.
pub enum GossipEvent {
    /// A locally produced attestation arrived on the inbound queue.
    LocalAttestation(TwapMessage),
    /// Peer discovery reported these dialable addresses.
    PeerDiscovered(Vec<String>),
    /// A gossip payload arrived; `None` when it did not decode as an
    /// attestation.
    PeerMessage(Option<TwapMessage>),
    /// Any other transport event.
    Other,
}

/// What a turn of the gossip loop does.
pub enum GossipAction {
    /// Publish the attestation on the subscribed topic.
    Publish(TwapMessage),
    /// Dial the discovered addresses.
    Dial(Vec<String>),
    /// The peer attestation verified; accept it for this pair.
    Accept(String),
    /// The peer attestation did not verify; log and drop it.
    Reject(PeerMessageError),
    /// Nothing to do.
    Ignore,
}

/// One turn of the gossip event loop: a local attestation is published,
/// a discovered peer is dialed, a received attestation is verified and
/// then accepted or rejected, and anything else is ignored. No input
/// terminates the loop.
pub fn gossip_step(event: GossipEvent) -> (r: GossipAction)
    ensures
        match event {
            GossipEvent::LocalAttestation(message) => r matches GossipAction::Publish(out)
                && out@ == message@,
            GossipEvent::PeerDiscovered(addresses) => r matches GossipAction::Dial(out) && out@
                == addresses@,
            GossipEvent::PeerMessage(Some(message)) => if spec_verify_twap(
                message@.twap,
                message@.signature,
                message@.public_key,
            ) {
                r matches GossipAction::Accept(pair) && pair@ == message@.pair_id
            } else {
                r is Reject
            },
            GossipEvent::PeerMessage(None) => r is Ignore,
            GossipEvent::Other => r is Ignore,
        },
{
    match event {
        GossipEvent::LocalAttestation(message) => GossipAction::Publish(message),
        GossipEvent::PeerDiscovered(addresses) => GossipAction::Dial(addresses),
        GossipEvent::PeerMessage(Some(message)) => {
            match handle_twap_message(&message) {
                Ok(()) => GossipAction::Accept(message.pair_id),
                Err(why) => GossipAction::Reject(why),
            }
        },
        GossipEvent::PeerMessage(None) => GossipAction::Ignore,
        GossipEvent::Other => GossipAction::Ignore,
    }
}

} // verus!
