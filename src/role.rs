//! Node roles and the protocol modules that each role activates.
use vstd::prelude::*;

verus! {

/// What a node does in the overlay; fixed when the node is built.
#[derive(Debug, Clone, Copy, PartialEq, Eq, Structural)]
pub enum NodeRole {
    Client,
    Relay,
    FullNode,
}

/// How the node takes part in the distributed routing table.
#[derive(Debug, Clone, Copy, PartialEq, Eq, Structural)]
pub enum KadMode {
    /// Issues queries only; neither stores records nor answers.
    Client,
    /// Stores records and answers queries of other peers.
    Server,
}

/// The protocol modules that a role composes, with their per-role settings.
#[derive(Debug, Clone, Copy, PartialEq, Eq, Structural)]
pub struct ModuleSet {
    pub ping: bool,
    pub identify: bool,
    pub gossip: bool,
    pub kad_mode: KadMode,
    pub relay: bool,
}

/// Routing-table mode of a role: only clients stay query-only.
pub open spec fn role_kad_mode(role: NodeRole) -> KadMode {
    match role {
        NodeRole::Client => KadMode::Client,
        NodeRole::Relay | NodeRole::FullNode => KadMode::Server,
    }
}

/// Whether a role runs the circuit relay.
pub open spec fn role_has_relay(role: NodeRole) -> bool {
    role != NodeRole::Client
}

/// The module set of a role: liveness, identify and gossip always run.
pub open spec fn role_modules(role: NodeRole) -> ModuleSet {
    ModuleSet {
        ping: true,
        identify: true,
        gossip: true,
        kad_mode: role_kad_mode(role),
        relay: role_has_relay(role),
    }
}

pub fn kad_mode_for(role: NodeRole) -> (r: KadMode)
    ensures
        r == role_kad_mode(role),
{
    match role {
        NodeRole::Client => KadMode::Client,
        NodeRole::Relay | NodeRole::FullNode => KadMode::Server,
    }
}

pub fn relay_enabled(role: NodeRole) -> (r: bool)
    ensures
        r == role_has_relay(role),
{
    match role {
        NodeRole::Client => false,
        NodeRole::Relay | NodeRole::FullNode => true,
    }
}

/// Composes the module set of `role`; touches no network.
pub fn compose(role: NodeRole) -> (r: ModuleSet)
    ensures
        r == role_modules(role),
{
    ModuleSet {
        ping: true,
        identify: true,
        gossip: true,
        kad_mode: kad_mode_for(role),
        relay: relay_enabled(role),
    }
}

/// A client never runs the relay and keeps the routing table query-only;
/// relays and full nodes run the relay and serve the routing table.
pub proof fn role_module_invariant(role: NodeRole)
    ensures
        role == NodeRole::Client ==> !role_modules(role).relay && role_modules(role).kad_mode
            == KadMode::Client,
        role != NodeRole::Client ==> role_modules(role).relay && role_modules(role).kad_mode
            == KadMode::Server,
        role_modules(role).ping && role_modules(role).identify && role_modules(role).gossip,
{
}

} // verus!
