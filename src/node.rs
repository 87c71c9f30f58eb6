//! Building a node: its role, its seed endpoints and its protocol modules.
use vstd::prelude::*;
use libp2p::identity::Keypair;
use libp2p::{identify, ping, relay, Multiaddr};
use crate::gossip::{
    gossip_heartbeat_secs, gossip_signs, gossip_strict, gossip_topics, make_docstore_gossipsub,
    GossipBehaviour, HEARTBEAT_SECS,
};
use crate::identity::peer_id_of;
use crate::peer_dht::{
    identify_protocol, kad_has_peers, kad_lookups, kad_serves, make_peer_dht, KadBehaviour,
    IDENTIFY_PROTOCOL,
};
use vstd::multiset::Multiset;
use crate::relay::make_relay_behaviour;
use crate::role::{kad_mode_for, relay_enabled, role_has_relay, role_kad_mode, KadMode, NodeRole};

verus! {

/// The protocol modules of a node, composed for its role.
pub struct Behaviours {
    pub ping: ping::Behaviour,
    pub gossipsub: GossipBehaviour,
    pub identify: identify::Behaviour,
    pub kademlia: KadBehaviour,
    /// Present exactly for the roles that relay.
    pub relay: Option<relay::Behaviour>,
}

/// Collects what a node is built from.
pub struct NodeBuilder {
    role: NodeRole,
    bootstrap_peers: Vec<Multiaddr>,
}

impl NodeBuilder {
    pub closed spec fn spec_role(&self) -> NodeRole {
        self.role
    }

    pub closed spec fn spec_bootstrap_peers(&self) -> Seq<Multiaddr> {
        self.bootstrap_peers@
    }

    pub fn new(role: NodeRole) -> (r: Self)
        ensures
            r.spec_role() == role,
            r.spec_bootstrap_peers() == Seq::<Multiaddr>::empty(),
    {
        NodeBuilder { role, bootstrap_peers: Vec::new() }
    }

    /// Adds a seed endpoint after those already given.
    pub fn add_bootstrap(self, addr: Multiaddr) -> (r: Self)
        ensures
            r.spec_role() == self.spec_role(),
            r.spec_bootstrap_peers() == self.spec_bootstrap_peers().push(addr),
    {
        let mut b = self;
        b.bootstrap_peers.push(addr);
        b
    }

    pub fn role(&self) -> (r: NodeRole)
        ensures
            r == self.spec_role(),
    {
        self.role
    }

    pub fn bootstrap_peers(&self) -> (r: &Vec<Multiaddr>)
        ensures
            r@ == self.spec_bootstrap_peers(),
    {
        &self.bootstrap_peers
    }

    /// Composes the protocol modules for `key` and the builder's role: the routing
    /// table, empty and idle, serves others exactly for relays and full nodes, and
    /// only they run the relay. Whatever the role, gossip signs and validates
    /// strictly with a one-second heartbeat and no topic joined, and identify
    /// advertises this crate's protocol version.
    pub fn build_behaviours(&self, key: &Keypair) -> (r: Behaviours)
        ensures
            r.relay.is_some() == role_has_relay(self.spec_role()),
            kad_serves(r.kademlia) == (role_kad_mode(self.spec_role()) == KadMode::Server),
            !kad_has_peers(r.kademlia),
            kad_lookups(r.kademlia) == Multiset::<Seq<u8>>::empty(),
            gossip_strict(r.gossipsub) && gossip_signs(r.gossipsub),
            gossip_heartbeat_secs(r.gossipsub) == HEARTBEAT_SECS,
            gossip_topics(r.gossipsub) == Set::<Seq<char>>::empty(),
            identify_protocol(r.identify) == IDENTIFY_PROTOCOL@,
    {
        let local_peer_id = peer_id_of(key);
        let mode = kad_mode_for(self.role);
        let local_pub = crate::identity::public_key_of(key);
        let (ping_beh, identify_beh, kademlia_beh) = make_peer_dht(&local_pub, local_peer_id, mode);
        let gossipsub = make_docstore_gossipsub(key);
        let relay_beh = if relay_enabled(self.role) {
            Some(make_relay_behaviour(local_peer_id))
        } else {
            None
        };
        Behaviours {
            ping: ping_beh,
            gossipsub,
            identify: identify_beh,
            kademlia: kademlia_beh,
            relay: relay_beh,
        }
    }
}

} // verus!
