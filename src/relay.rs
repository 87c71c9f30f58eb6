//! The circuit relay module, which relays and full nodes run.
use vstd::prelude::*;
use libp2p::{relay, PeerId};

verus! {

/// The circuit relay module.
#[verifier::external_type_specification]
#[verifier::external_body]
pub struct ExRelayBehaviour(relay::Behaviour);

/// Relies on relay::Behaviour::new, with relay::Config::default.
#[verifier::external_body]
fn new_relay(local_peer_id: PeerId) -> relay::Behaviour {
    relay::Behaviour::new(local_peer_id, relay::Config::default())
}

/// A circuit relay (version 2) with the default configuration.
pub fn make_relay_behaviour(local_peer_id: PeerId) -> relay::Behaviour {
    new_relay(local_peer_id)
}

} // verus!
