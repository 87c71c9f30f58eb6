//! Coordinator logic for a small peer-to-peer document-store overlay node.

pub mod bootstrap;
pub mod gossip;
pub mod identity;
pub mod node;
pub mod overlay;
pub mod peer_dht;
pub mod relay;
pub mod role;
pub mod schedule;
pub mod table;
