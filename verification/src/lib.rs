//! A decentralized price-oracle node library: decoding of on-chain price
//! submission events, an ordered time-series store with trailing-window TWAP
//! aggregation, ECDSA attestation signing and verification, and the decision
//! logic of the indexing and gossip loops.
pub mod api;
pub mod config;
pub mod hexutil;
pub mod indexer;
pub mod numeric;
pub mod p2p;
pub mod signing;
pub mod spot_entry;
pub mod store;
pub mod text;
