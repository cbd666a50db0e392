//! Core logic for gossip-based peer discovery: classification of advertised
//! peer addresses (routable / acceptable for a public overlay) and bounded,
//! deterministic binary (de)serialization of gossip records.

pub mod addr;
pub mod codec;
pub mod gossip;
