//! The overlay event loop's decisions: how each command and each network event
//! changes the shared overlay state and which domain events it emits.
use vstd::prelude::*;
use vstd::multiset::Multiset;
use vstd::string::*;
use libp2p::gossipsub::{MessageId, PublishError};
use libp2p::{Multiaddr, PeerId};
use crate::gossip::{publish_update, GossipBehaviour, DOCSTORE_TOPIC};
use crate::peer_dht::{kad_add_address, kad_get_closest_peers, kad_has_peers, kad_lookups, kad_serves, KadBehaviour};
use crate::table::{copy_texts, texts, with_endpoint, EntryView, PeerTable};

verus! {

/// What the node reports to its consumer.
#[derive(Debug)]
pub enum DomainEvent {
    Connected { peer_id: String },
    Disconnected { peer_id: String },
    MessageReceived { peer_id: String, data: String },
    MessagePublished { msg_id: String },
    PeerDiscovery { peer_id: String, addrs: Vec<String> },
    Error { msg: String },
}

/// What a caller asks of the node.
#[derive(Debug)]
pub enum Command {
    /// Broadcast a payload on the docstore topic.
    Publish(Vec<u8>),
    /// Look up the peers closest to a target in the routing table.
    FindPeer(PeerId),
}

/// The type tag under which an event is handed to the consumer.
pub open spec fn event_tag(e: DomainEvent) -> Seq<char> {
    match e {
        DomainEvent::Connected { .. } => "connected"@,
        DomainEvent::Disconnected { .. } => "disconnected"@,
        DomainEvent::MessageReceived { .. } => "messageReceived"@,
        DomainEvent::MessagePublished { .. } => "messagePublished"@,
        DomainEvent::PeerDiscovery { .. } => "peerDiscovery"@,
        DomainEvent::Error { .. } => "error"@,
    }
}

impl DomainEvent {
    /// The type tag of the event.
    pub fn kind(&self) -> (r: &'static str)
        ensures
            r@ == event_tag(*self),
    {
        match self {
            DomainEvent::Connected { .. } => "connected",
            DomainEvent::Disconnected { .. } => "disconnected",
            DomainEvent::MessageReceived { .. } => "messageReceived",
            DomainEvent::MessagePublished { .. } => "messagePublished",
            DomainEvent::PeerDiscovery { .. } => "peerDiscovery",
            DomainEvent::Error { .. } => "error",
        }
    }
}

/// Whether `PeerId::from_str` accepts `s`.
pub uninterp spec fn peer_id_parses(s: Seq<char>) -> bool;

/// Relies on PeerId::from_str, whose success depends on the text alone.
#[verifier::external_body]
fn parse_peer_id(s: &str) -> (r: Option<PeerId>)
    ensures
        r is Some == peer_id_parses(s@),
{
    s.parse::<PeerId>().ok()
}

/// The lookup command for a peer id given as text; `None` when the text is no peer id.
pub fn find_peer_command(target: &str) -> (r: Option<Command>)
    ensures
        r is Some == peer_id_parses(target@),
        r matches Some(c) ==> c is FindPeer,
{
    match parse_peer_id(target) {
        Some(p) => Some(Command::FindPeer(p)),
        None => None,
    }
}

/// The text that `String::from_utf8_lossy` makes of these bytes.
pub uninterp spec fn utf8_lossy_of(bytes: Seq<u8>) -> Seq<char>;

/// Relies on String::from_utf8_lossy: invalid sequences become U+FFFD, and the
/// result depends on the bytes alone.
#[verifier::external_body]
fn lossy_text(bytes: &[u8]) -> (r: String)
    ensures
        r@ == utf8_lossy_of(bytes@),
        bytes@.len() == 0 ==> r@.len() == 0,
{
    String::from_utf8_lossy(bytes).into_owned()
}

/// Relies on the Debug form of gossipsub::MessageId.
#[verifier::external_body]
fn message_id_text(id: &MessageId) -> String {
    format!("{:?}", id)
}

/// Relies on the Display form of gossipsub::PublishError.
#[verifier::external_body]
fn publish_error_text(e: &PublishError) -> String {
    format!("{}", e)
}

/// `endpoints` added one after the other to the endpoints of `peer`.
pub open spec fn with_endpoints(
    m: Map<Seq<char>, Seq<Seq<char>>>,
    peer: Seq<char>,
    endpoints: Seq<Seq<char>>,
) -> Map<Seq<char>, Seq<Seq<char>>>
    decreases endpoints.len(),
{
    if endpoints.len() == 0 {
        m
    } else {
        with_endpoint(with_endpoints(m, peer, endpoints.drop_last()), peer, endpoints.last())
    }
}

/// The entries recorded one after the other, each replacing what its peer had.
pub open spec fn with_entries(m: Map<Seq<char>, Seq<Seq<char>>>, entries: Seq<EntryView>) -> Map<
    Seq<char>,
    Seq<Seq<char>>,
>
    decreases entries.len(),
{
    if entries.len() == 0 {
        m
    } else {
        with_entries(m, entries.drop_last()).insert(entries.last().0, entries.last().1)
    }
}

/// Set semantics with insertion order: `x` is appended unless present.
pub open spec fn push_unique(s: Seq<Seq<char>>, x: Seq<char>) -> Seq<Seq<char>> {
    if s.contains(x) {
        s
    } else {
        s.push(x)
    }
}

/// Whether `e` is the event that publishing reports for `outcome`.
pub open spec fn is_publish_event(outcome: Result<Seq<char>, Seq<char>>, e: DomainEvent) -> bool {
    match outcome {
        Ok(id) => e matches DomainEvent::MessagePublished { msg_id } && msg_id@ == id,
        Err(reason) => e matches DomainEvent::Error { msg } && msg@ == "Publish error: "@ + reason,
    }
}

/// The domain event that reports a publish outcome: the message id, or the reason
/// of the failure.
pub fn publish_outcome(outcome: Result<String, String>) -> (r: DomainEvent)
    ensures
        is_publish_event(
            match outcome {
                Ok(id) => Ok(id@),
                Err(e) => Err(e@),
            },
            r,
        ),
{
    match outcome {
        Ok(id) => DomainEvent::MessagePublished { msg_id: id },
        Err(e) => DomainEvent::Error {
            msg: String::from_str("Publish error: ").concat(e.as_str()),
        },
    }
}

/// The event for a gossip message: its sender and its payload read as UTF-8,
/// invalid bytes replaced.
pub fn message_received(source: String, data: &[u8]) -> (r: DomainEvent)
    ensures
        r matches DomainEvent::MessageReceived { peer_id, data: text } && peer_id@ == source@
            && text@ == utf8_lossy_of(data@),
{
    DomainEvent::MessageReceived { peer_id: source, data: lossy_text(data) }
}

/// The event for a failed outgoing connection.
pub fn connection_error(reason: String) -> (r: DomainEvent)
    ensures
        r matches DomainEvent::Error { msg } && msg@ == "Connection error: "@ + reason@,
{
    DomainEvent::Error { msg: String::from_str("Connection error: ").concat(reason.as_str()) }
}

/// Whether `s` begins with `prefix`.
pub open spec fn starts_with(s: Seq<char>, prefix: Seq<char>) -> bool {
    prefix.len() <= s.len() && s.subrange(0, prefix.len() as int) == prefix
}

/// Whether `e` reports a publish: the message id, or an error whose text is the
/// publish-error prefix followed by the reason.
pub open spec fn is_publish_report(e: DomainEvent) -> bool {
    match e {
        DomainEvent::MessagePublished { .. } => true,
        DomainEvent::Error { msg } => starts_with(msg@, "Publish error: "@),
        _ => false,
    }
}

/// Carries out a command: a publish is reported by a domain event whatever its
/// outcome; a lookup starts a routing-table query whose result arrives later.
/// Neither changes the routing table's mode or empties it.
pub fn handle_command(
    cmd: Command,
    gossip: &mut GossipBehaviour,
    kad: &mut KadBehaviour,
) -> (r: Option<DomainEvent>)
    ensures
        cmd is Publish ==> (r matches Some(e) && is_publish_report(e)),
        cmd is FindPeer ==> r is None,
        cmd is FindPeer ==> exists|target: Seq<u8>|
            kad_lookups(*final(kad)) == kad_lookups(*old(kad)).insert(target),
        cmd is Publish ==> kad_lookups(*final(kad)) == kad_lookups(*old(kad)),
        kad_serves(*final(kad)) == kad_serves(*old(kad)),
        kad_has_peers(*final(kad)) == kad_has_peers(*old(kad)),
{
    match cmd {
        Command::Publish(data) => {
            let outcome = match publish_update(gossip, data) {
                Ok(id) => Ok(message_id_text(&id)),
                Err(e) => Err(publish_error_text(&e)),
            };
            let ghost reason = match &outcome {
                Ok(_) => Seq::<char>::empty(),
                Err(e) => e@,
            };
            let event = publish_outcome(outcome);
            proof {
                let p = "Publish error: "@;
                assert((p + reason).subrange(0, p.len() as int) =~= p);
            }
            Some(event)
        },
        Command::FindPeer(target) => {
            let key = kad_get_closest_peers(kad, target);
            assert(kad_lookups(*kad) == kad_lookups(*old(kad)).insert(key@));
            None
        },
    }
}

/// What the coordinator believes about the network; only the event loop writes it.
pub struct OverlayState {
    listen_addrs: Vec<String>,
    connected_peers: PeerTable,
    discovered_peers: PeerTable,
    subscriptions: Vec<String>,
    relays: Vec<String>,
}

impl OverlayState {
    pub closed spec fn listen_view(&self) -> Seq<Seq<char>> {
        texts(self.listen_addrs@)
    }

    pub closed spec fn connected_view(&self) -> Map<Seq<char>, Seq<Seq<char>>> {
        self.connected_peers.view()
    }

    pub closed spec fn discovered_view(&self) -> Map<Seq<char>, Seq<Seq<char>>> {
        self.discovered_peers.view()
    }

    pub closed spec fn subscriptions_view(&self) -> Seq<Seq<char>> {
        texts(self.subscriptions@)
    }

    pub closed spec fn relays_view(&self) -> Seq<Seq<char>> {
        texts(self.relays@)
    }

    pub closed spec fn wf(&self) -> bool {
        self.connected_peers.wf() && self.discovered_peers.wf()
    }

    /// The state at startup: subscribed to the docstore topic, nothing else known.
    pub fn new() -> (r: Self)
        ensures
            r.wf(),
            r.listen_view() == Seq::<Seq<char>>::empty(),
            r.connected_view() == Map::<Seq<char>, Seq<Seq<char>>>::empty(),
            r.discovered_view() == Map::<Seq<char>, Seq<Seq<char>>>::empty(),
            r.subscriptions_view() == seq![DOCSTORE_TOPIC@],
            r.relays_view() == Seq::<Seq<char>>::empty(),
    {
        let topic = String::from_str(DOCSTORE_TOPIC);
        let ghost t = topic@;
        let subscriptions = vec![topic];
        let r = OverlayState {
            listen_addrs: Vec::new(),
            connected_peers: PeerTable::new(),
            discovered_peers: PeerTable::new(),
            subscriptions,
            relays: Vec::new(),
        };
        assert(r.listen_view() =~= Seq::<Seq<char>>::empty());
        assert(r.subscriptions_view() =~= seq![t]);
        assert(r.relays_view() =~= Seq::<Seq<char>>::empty());
        r
    }

    /// A connection was established: the peer is recorded with the endpoint it was
    /// reached on.
    pub fn on_connection_established(&mut self, peer: String, endpoint: String) -> (r: DomainEvent)
        requires
            old(self).wf(),
        ensures
            final(self).wf(),
            final(self).connected_view() == old(self).connected_view().insert(
                peer@,
                seq![endpoint@],
            ),
            final(self).discovered_view() == old(self).discovered_view(),
            final(self).listen_view() == old(self).listen_view(),
            final(self).subscriptions_view() == old(self).subscriptions_view(),
            final(self).relays_view() == old(self).relays_view(),
            r matches DomainEvent::Connected { peer_id } && peer_id@ == peer@,
    {
        let ghost e = endpoint@;
        let endpoints = vec![endpoint];
        assert(texts(endpoints@) =~= seq![e]);
        let event = DomainEvent::Connected { peer_id: peer.clone() };
        self.connected_peers.insert(peer, endpoints);
        event
    }

    /// A connection was closed: the peer is no longer connected.
    pub fn on_connection_closed(&mut self, peer: String) -> (r: DomainEvent)
        requires
            old(self).wf(),
        ensures
            final(self).wf(),
            final(self).connected_view() == old(self).connected_view().remove(peer@),
            final(self).discovered_view() == old(self).discovered_view(),
            final(self).listen_view() == old(self).listen_view(),
            final(self).subscriptions_view() == old(self).subscriptions_view(),
            final(self).relays_view() == old(self).relays_view(),
            r matches DomainEvent::Disconnected { peer_id } && peer_id@ == peer@,
    {
        self.connected_peers.remove(&peer);
        DomainEvent::Disconnected { peer_id: peer }
    }

    /// A new local listen address: kept once, in the order first seen.
    pub fn on_new_listen_addr(&mut self, addr: String)
        requires
            old(self).wf(),
        ensures
            final(self).wf(),
            final(self).listen_view() == push_unique(old(self).listen_view(), addr@),
            final(self).connected_view() == old(self).connected_view(),
            final(self).discovered_view() == old(self).discovered_view(),
            final(self).subscriptions_view() == old(self).subscriptions_view(),
            final(self).relays_view() == old(self).relays_view(),
    {
        if !crate::table::contains_text(&self.listen_addrs, &addr) {
            let ghost a = addr@;
            self.listen_addrs.push(addr);
            assert(texts(self.listen_addrs@) =~= texts(old(self).listen_addrs@).push(a));
        }
    }

    /// A peer told its listen addresses: each is offered to the routing table and
    /// goes into the peer's discovered endpoints. No event is emitted. The
    /// routing table keeps its mode and its peers.
    pub fn on_identify(
        &mut self,
        kad: &mut KadBehaviour,
        peer: PeerId,
        peer_text: String,
        addrs: &Vec<(Multiaddr, String)>,
    )
        requires
            old(self).wf(),
        ensures
            final(self).wf(),
            final(self).discovered_view() == with_endpoints(
                old(self).discovered_view(),
                peer_text@,
                addrs@.map_values(|a: (Multiaddr, String)| a.1@),
            ),
            kad_serves(*final(kad)) == kad_serves(*old(kad)),
            kad_has_peers(*old(kad)) ==> kad_has_peers(*final(kad)),
            final(self).connected_view() == old(self).connected_view(),
            final(self).listen_view() == old(self).listen_view(),
            final(self).subscriptions_view() == old(self).subscriptions_view(),
            final(self).relays_view() == old(self).relays_view(),
    {
        let ghost views = addrs@.map_values(|a: (Multiaddr, String)| a.1@);
        let mut i: usize = 0;
        while i < addrs.len()
            invariant
                i <= addrs@.len(),
                views == addrs@.map_values(|a: (Multiaddr, String)| a.1@),
                self.wf(),
                self.discovered_view() == with_endpoints(
                    old(self).discovered_view(),
                    peer_text@,
                    views.subrange(0, i as int),
                ),
                self.connected_view() == old(self).connected_view(),
                self.listen_view() == old(self).listen_view(),
                self.subscriptions_view() == old(self).subscriptions_view(),
                self.relays_view() == old(self).relays_view(),
                kad_serves(*kad) == kad_serves(*old(kad)),
                kad_has_peers(*old(kad)) ==> kad_has_peers(*kad),
            decreases addrs@.len() - i,
        {
            let _ = kad_add_address(kad, &peer, &addrs[i].0);
            self.discovered_peers.add_endpoint(peer_text.clone(), addrs[i].1.clone());
            assert(views.subrange(0, i + 1).drop_last() =~= views.subrange(0, i as int));
            i = i + 1;
        }
        assert(views.subrange(0, i as int) =~= views);
    }

    /// A routing-table query returned the closest peers: each is reported and its
    /// addresses replace what was discovered of it.
    pub fn on_closest_peers(&mut self, peers: Vec<(String, Vec<String>)>) -> (r: Vec<DomainEvent>)
        requires
            old(self).wf(),
        ensures
            final(self).wf(),
            final(self).discovered_view() == with_entries(
                old(self).discovered_view(),
                peers@.map_values(|e: (String, Vec<String>)| crate::table::entry_view(e)),
            ),
            final(self).connected_view() == old(self).connected_view(),
            final(self).listen_view() == old(self).listen_view(),
            final(self).subscriptions_view() == old(self).subscriptions_view(),
            final(self).relays_view() == old(self).relays_view(),
            r@.len() == peers@.len(),
            forall|i: int|
                0 <= i < r@.len() ==> (#[trigger] r@[i] matches DomainEvent::PeerDiscovery {
                    peer_id,
                    addrs,
                } && peer_id@ == peers@[i].0@ && texts(addrs@) == texts(peers@[i].1@)),
    {
        let ghost views = peers@.map_values(|e: (String, Vec<String>)| crate::table::entry_view(e));
        let mut events: Vec<DomainEvent> = Vec::new();
        let mut i: usize = 0;
        while i < peers.len()
            invariant
                i <= peers@.len(),
                views == peers@.map_values(
                    |e: (String, Vec<String>)| crate::table::entry_view(e),
                ),
                self.wf(),
                self.discovered_view() == with_entries(
                    old(self).discovered_view(),
                    views.subrange(0, i as int),
                ),
                self.connected_view() == old(self).connected_view(),
                self.listen_view() == old(self).listen_view(),
                self.subscriptions_view() == old(self).subscriptions_view(),
                self.relays_view() == old(self).relays_view(),
                events@.len() == i,
                forall|j: int|
                    0 <= j < i ==> (#[trigger] events@[j] matches DomainEvent::PeerDiscovery {
                        peer_id,
                        addrs,
                    } && peer_id@ == peers@[j].0@ && texts(addrs@) == texts(peers@[j].1@)),
            decreases peers@.len() - i,
        {
            let peer = &peers[i].0;
            let addrs = &peers[i].1;
            events.push(DomainEvent::PeerDiscovery { peer_id: peer.clone(), addrs: copy_texts(addrs) });
            self.discovered_peers.insert(peer.clone(), copy_texts(addrs));
            assert(views.subrange(0, i + 1).drop_last() =~= views.subrange(0, i as int));
            i = i + 1;
        }
        assert(views.subrange(0, i as int) =~= views);
        events
    }

    pub fn listen_addrs(&self) -> (r: &Vec<String>)
        ensures
            texts(r@) == self.listen_view(),
    {
        &self.listen_addrs
    }

    pub fn connected_peers(&self) -> (r: &PeerTable)
        requires
            self.wf(),
        ensures
            r.wf(),
            r.view() == self.connected_view(),
    {
        &self.connected_peers
    }

    pub fn discovered_peers(&self) -> (r: &PeerTable)
        requires
            self.wf(),
        ensures
            r.wf(),
            r.view() == self.discovered_view(),
    {
        &self.discovered_peers
    }

    pub fn subscriptions(&self) -> (r: &Vec<String>)
        ensures
            texts(r@) == self.subscriptions_view(),
    {
        &self.subscriptions
    }

    pub fn relays(&self) -> (r: &Vec<String>)
        ensures
            texts(r@) == self.relays_view(),
    {
        &self.relays
    }
}

/// Recording a peer's endpoint twice leaves the table as recording it once.
pub proof fn address_insertion_idempotent(
    m: Map<Seq<char>, Seq<Seq<char>>>,
    peer: Seq<char>,
    endpoint: Seq<char>,
)
    ensures
        with_endpoint(with_endpoint(m, peer, endpoint), peer, endpoint) == with_endpoint(
            m,
            peer,
            endpoint,
        ),
{
    let once = with_endpoint(m, peer, endpoint);
    assert(once.contains_key(peer));
    if m.contains_key(peer) && !m[peer].contains(endpoint) {
        assert(m[peer].push(endpoint)[m[peer].len() as int] == endpoint);
    } else if !m.contains_key(peer) {
        assert(seq![endpoint][0] == endpoint);
    }
    assert(once[peer].contains(endpoint));
}

proof fn lemma_with_endpoint_keeps(
    m: Map<Seq<char>, Seq<Seq<char>>>,
    peer: Seq<char>,
    endpoint: Seq<char>,
    x: Seq<char>,
)
    requires
        m.contains_key(peer) && m[peer].contains(x) || x == endpoint,
    ensures
        with_endpoint(m, peer, endpoint).contains_key(peer),
        with_endpoint(m, peer, endpoint)[peer].contains(x),
{
    if m.contains_key(peer) {
        if !m[peer].contains(endpoint) {
            let s = m[peer].push(endpoint);
            if x == endpoint {
                assert(s[s.len() - 1] == x);
            } else {
                let i = choose|i: int| 0 <= i < m[peer].len() && m[peer][i] == x;
                assert(s[i] == x);
            }
        }
    } else {
        assert(seq![endpoint][0] == endpoint);
    }
}

proof fn lemma_with_endpoints_holds(
    m: Map<Seq<char>, Seq<Seq<char>>>,
    peer: Seq<char>,
    endpoints: Seq<Seq<char>>,
)
    ensures
        endpoints.len() > 0 ==> with_endpoints(m, peer, endpoints).contains_key(peer),
        forall|x: Seq<char>|
            endpoints.contains(x) ==> #[trigger] with_endpoints(m, peer, endpoints)[peer].contains(
                x,
            ),
    decreases endpoints.len(),
{
    if endpoints.len() > 0 {
        let rest = endpoints.drop_last();
        let last = endpoints.last();
        lemma_with_endpoints_holds(m, peer, rest);
        let before = with_endpoints(m, peer, rest);
        assert forall|x: Seq<char>| endpoints.contains(x) implies #[trigger] with_endpoints(
            m,
            peer,
            endpoints,
        )[peer].contains(x) by {
            if x != last {
                let i = choose|i: int| 0 <= i < endpoints.len() && endpoints[i] == x;
                assert(rest[i] == x);
                assert(rest.contains(x));
            }
            lemma_with_endpoint_keeps(before, peer, last, x);
        }
        lemma_with_endpoint_keeps(before, peer, last, last);
    }
}

proof fn lemma_with_endpoints_known(
    m: Map<Seq<char>, Seq<Seq<char>>>,
    peer: Seq<char>,
    endpoints: Seq<Seq<char>>,
)
    requires
        endpoints.len() > 0 ==> m.contains_key(peer),
        forall|x: Seq<char>| endpoints.contains(x) ==> #[trigger] m[peer].contains(x),
    ensures
        with_endpoints(m, peer, endpoints) == m,
    decreases endpoints.len(),
{
    if endpoints.len() > 0 {
        let rest = endpoints.drop_last();
        assert forall|x: Seq<char>| rest.contains(x) implies #[trigger] m[peer].contains(x) by {
            let i = choose|i: int| 0 <= i < rest.len() && rest[i] == x;
            assert(endpoints[i] == x);
        }
        lemma_with_endpoints_known(m, peer, rest);
        assert(endpoints.contains(endpoints.last()));
    }
}

/// Reporting the same addresses of a peer a second time leaves the discovered
/// endpoints as the first report left them.
pub proof fn repeated_identify_idempotent(
    m: Map<Seq<char>, Seq<Seq<char>>>,
    peer: Seq<char>,
    endpoints: Seq<Seq<char>>,
)
    ensures
        with_endpoints(with_endpoints(m, peer, endpoints), peer, endpoints) == with_endpoints(
            m,
            peer,
            endpoints,
        ),
{
    lemma_with_endpoints_holds(m, peer, endpoints);
    lemma_with_endpoints_known(with_endpoints(m, peer, endpoints), peer, endpoints);
}

} // verus!
