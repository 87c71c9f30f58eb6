//! Liveness, identify and routing-table modules.
use vstd::prelude::*;
use vstd::multiset::Multiset;
use libp2p::identity::PublicKey;
use libp2p::{identify, ping, Multiaddr, PeerId};
use libp2p_kad::store::MemoryStore;
use crate::role::KadMode;

verus! {

/// The liveness module.
#[verifier::external_type_specification]
#[verifier::external_body]
pub struct ExPingBehaviour(ping::Behaviour);

/// The identify module.
#[verifier::external_type_specification]
#[verifier::external_body]
pub struct ExIdentifyBehaviour(identify::Behaviour);

/// The routing table's in-memory record store.
#[verifier::external_type_specification]
#[verifier::external_body]
pub struct ExMemoryStore(MemoryStore);

/// The routing-table (Kademlia) module.
#[verifier::external_type_specification]
#[verifier::external_body]
#[verifier::reject_recursive_types(TStore)]
pub struct ExKadBehaviour<TStore>(libp2p_kad::Behaviour<TStore>);

/// The routing table as the node composes it, with records kept in memory.
pub type KadBehaviour = libp2p_kad::Behaviour<MemoryStore>;

/// Protocol version that identify advertises.
pub const IDENTIFY_PROTOCOL: &'static str = "simple-p2p-docstore/0.1";

/// Whether the routing table serves others (server mode) rather than only querying.
pub uninterp spec fn kad_serves(kad: libp2p_kad::Behaviour<MemoryStore>) -> bool;

/// Whether the routing table holds at least one peer.
pub uninterp spec fn kad_has_peers(kad: libp2p_kad::Behaviour<MemoryStore>) -> bool;

/// The targets, as peer id bytes, of the closest-peer queries under way.
pub uninterp spec fn kad_lookups(kad: libp2p_kad::Behaviour<MemoryStore>) -> Multiset<Seq<u8>>;

/// The protocol version that the identify module advertises.
pub uninterp spec fn identify_protocol(beh: identify::Behaviour) -> Seq<char>;

/// What inserting an address into the routing table did.
#[derive(Debug, Clone, Copy, PartialEq, Eq, Structural)]
pub enum RoutingOutcome {
    /// The peer is in the table, with the address among its addresses.
    Success,
    /// The peer waits for room in a full bucket.
    Pending,
    /// The address was not recorded.
    Failed,
}

/// Relies on ping::Behaviour::default: liveness probing with the default configuration.
#[verifier::external_body]
fn new_ping() -> ping::Behaviour {
    ping::Behaviour::default()
}

/// Relies on identify::Behaviour::new, with identify::Config::new advertising
/// `protocol_version` and `key`.
#[verifier::external_body]
fn new_identify(protocol_version: &str, key: &PublicKey) -> (r: identify::Behaviour)
    ensures
        identify_protocol(r) == protocol_version@,
{
    identify::Behaviour::new(identify::Config::new(protocol_version.to_string(), key.clone()))
}

/// Relies on MemoryStore::new: an empty record store for `local_peer_id`.
#[verifier::external_body]
fn new_memory_store(local_peer_id: PeerId) -> MemoryStore {
    MemoryStore::new(local_peer_id)
}

/// Relies on libp2p_kad::Behaviour::new: a routing table with the default
/// configuration, no peer and no query.
#[verifier::external_body]
fn new_kademlia(local_peer_id: PeerId, store: MemoryStore) -> (r: KadBehaviour)
    ensures
        !kad_has_peers(r),
        kad_lookups(r) == Multiset::<Seq<u8>>::empty(),
{
    KadBehaviour::new(local_peer_id, store)
}

/// Relies on libp2p_kad::Behaviour::set_mode: fixes the mode, which then no
/// longer follows the confirmed external addresses; the peers stay.
#[verifier::external_body]
fn set_kad_mode(kad: &mut KadBehaviour, mode: KadMode)
    ensures
        kad_serves(*final(kad)) == (mode == KadMode::Server),
        kad_has_peers(*final(kad)) == kad_has_peers(*old(kad)),
        kad_lookups(*final(kad)) == kad_lookups(*old(kad)),
{
    let mode = match mode {
        KadMode::Client => libp2p_kad::Mode::Client,
        KadMode::Server => libp2p_kad::Mode::Server,
    };
    kad.set_mode(Some(mode));
}

/// Relies on libp2p_kad::Behaviour::add_address: `Success` when the peer is in the
/// table afterwards; otherwise whether the table holds peers is unchanged (a
/// pending peer waits on a full bucket). It never removes the last peer and
/// leaves the mode alone.
#[verifier::external_body]
pub(crate) fn kad_add_address(kad: &mut KadBehaviour, peer: &PeerId, addr: &Multiaddr) -> (r:
    RoutingOutcome)
    ensures
        r == RoutingOutcome::Success ==> kad_has_peers(*final(kad)),
        r != RoutingOutcome::Success ==> kad_has_peers(*final(kad)) == kad_has_peers(*old(kad)),
        kad_has_peers(*old(kad)) ==> kad_has_peers(*final(kad)),
        kad_serves(*final(kad)) == kad_serves(*old(kad)),
        kad_lookups(*final(kad)) == kad_lookups(*old(kad)),
{
    match kad.add_address(peer, addr.clone()) {
        libp2p_kad::RoutingUpdate::Success => RoutingOutcome::Success,
        libp2p_kad::RoutingUpdate::Pending => RoutingOutcome::Pending,
        libp2p_kad::RoutingUpdate::Failed => RoutingOutcome::Failed,
    }
}

/// Relies on libp2p_kad::Behaviour::get_closest_peers: starts a query for the
/// target (returned as its bytes, PeerId::to_bytes) whose result arrives later as
/// an event; peers and mode stay.
#[verifier::external_body]
pub(crate) fn kad_get_closest_peers(kad: &mut KadBehaviour, target: PeerId) -> (r: Vec<u8>)
    ensures
        kad_lookups(*final(kad)) == kad_lookups(*old(kad)).insert(r@),
        kad_has_peers(*final(kad)) == kad_has_peers(*old(kad)),
        kad_serves(*final(kad)) == kad_serves(*old(kad)),
{
    let _ = kad.get_closest_peers(target);
    target.to_bytes()
}

/// Relies on libp2p_kad::Behaviour::bootstrap: a refresh query starts exactly
/// when the routing table knows a peer; peers and mode stay.
#[verifier::external_body]
pub(crate) fn kad_bootstrap(kad: &mut KadBehaviour) -> (r: bool)
    ensures
        r == kad_has_peers(*old(kad)),
        kad_has_peers(*final(kad)) == kad_has_peers(*old(kad)),
        kad_serves(*final(kad)) == kad_serves(*old(kad)),
        kad_lookups(*final(kad)) == kad_lookups(*old(kad)),
{
    kad.bootstrap().is_ok()
}

/// The liveness, identify and routing-table modules of a node: identify advertises
/// this crate's protocol version, and the routing table is empty, has no query
/// under way and is fixed in `mode`.
pub fn make_peer_dht(
    local_pub: &PublicKey,
    local_peer_id: PeerId,
    mode: KadMode,
) -> (r: (ping::Behaviour, identify::Behaviour, KadBehaviour))
    ensures
        kad_serves(r.2) == (mode == KadMode::Server),
        !kad_has_peers(r.2),
        kad_lookups(r.2) == Multiset::<Seq<u8>>::empty(),
        identify_protocol(r.1) == IDENTIFY_PROTOCOL@,
{
    let ping_behaviour = new_ping();
    let identify_behaviour = new_identify(IDENTIFY_PROTOCOL, local_pub);
    let store = new_memory_store(local_peer_id);
    let mut kademlia = new_kademlia(local_peer_id, store);
    set_kad_mode(&mut kademlia, mode);
    (ping_behaviour, identify_behaviour, kademlia)
}

} // verus!
