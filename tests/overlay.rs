use libp2p::identity::Keypair;
use libp2p::{Multiaddr, PeerId};
use simple_p2p_docstore::gossip::make_docstore_gossipsub;
use simple_p2p_docstore::identity::peer_id_of;
use simple_p2p_docstore::overlay::{
    connection_error, handle_command, message_received, publish_outcome, Command, DomainEvent,
    OverlayState,
};
use simple_p2p_docstore::peer_dht::make_peer_dht;
use simple_p2p_docstore::role::KadMode;
use simple_p2p_docstore::schedule::{FairSelect, Source};
use simple_p2p_docstore::table::{contains_text, copy_texts, PeerTable};

fn s(x: &str) -> String {
    x.to_string()
}

#[test]
fn fresh_state_is_subscribed_to_docstore() {
    let st = OverlayState::new();
    assert_eq!(st.subscriptions(), &vec![s("docstore/v1/updates")]);
    assert!(st.listen_addrs().is_empty());
    assert!(st.relays().is_empty());
    assert_eq!(st.connected_peers().len(), 0);
    assert_eq!(st.discovered_peers().len(), 0);
}

#[test]
fn connections_are_recorded_and_forgotten() {
    let mut st = OverlayState::new();
    match st.on_connection_established(s("peerA"), s("/ip4/1.1.1.1/tcp/1")) {
        DomainEvent::Connected { peer_id } => assert_eq!(peer_id, "peerA"),
        _ => panic!("expected Connected"),
    }
    assert_eq!(st.connected_peers().get(&s("peerA")), Some(&vec![s("/ip4/1.1.1.1/tcp/1")]));
    st.on_connection_established(s("peerA"), s("/ip4/2.2.2.2/tcp/2"));
    assert_eq!(st.connected_peers().len(), 1);
    assert_eq!(st.connected_peers().get(&s("peerA")), Some(&vec![s("/ip4/2.2.2.2/tcp/2")]));
    match st.on_connection_closed(s("peerA")) {
        DomainEvent::Disconnected { peer_id } => assert_eq!(peer_id, "peerA"),
        _ => panic!("expected Disconnected"),
    }
    assert_eq!(st.connected_peers().get(&s("peerA")), None);
    assert_eq!(st.connected_peers().len(), 0);
}

#[test]
fn listen_addresses_keep_set_semantics_and_order() {
    let mut st = OverlayState::new();
    st.on_new_listen_addr(s("/ip4/0.0.0.0/tcp/1"));
    st.on_new_listen_addr(s("/ip4/0.0.0.0/udp/9090/webrtc-direct"));
    st.on_new_listen_addr(s("/ip4/0.0.0.0/tcp/1"));
    assert_eq!(
        st.listen_addrs(),
        &vec![s("/ip4/0.0.0.0/tcp/1"), s("/ip4/0.0.0.0/udp/9090/webrtc-direct")]
    );
}

#[test]
fn identify_addresses_are_recorded_once() {
    let key = Keypair::generate_ed25519();
    let (_, _, mut kad) = make_peer_dht(&key.public(), peer_id_of(&key), KadMode::Server);
    let mut st = OverlayState::new();
    let peer = PeerId::random();
    let a: Multiaddr = "/ip4/10.0.0.7/tcp/4001".parse().unwrap();
    let addrs = vec![(a.clone(), a.to_string()), (a.clone(), a.to_string())];
    st.on_identify(&mut kad, peer, peer.to_string(), &addrs);
    st.on_identify(&mut kad, peer, peer.to_string(), &addrs);
    assert_eq!(st.discovered_peers().len(), 1);
    assert_eq!(st.discovered_peers().get(&peer.to_string()), Some(&vec![a.to_string()]));
}

#[test]
fn closest_peers_are_reported_and_recorded() {
    let mut st = OverlayState::new();
    let peers = vec![
        (s("p1"), vec![s("/ip4/1.0.0.1/tcp/1")]),
        (s("p2"), vec![]),
    ];
    let events = st.on_closest_peers(peers);
    assert_eq!(events.len(), 2);
    match &events[0] {
        DomainEvent::PeerDiscovery { peer_id, addrs } => {
            assert_eq!(peer_id, "p1");
            assert_eq!(addrs, &vec![s("/ip4/1.0.0.1/tcp/1")]);
        }
        _ => panic!("expected PeerDiscovery"),
    }
    assert!(matches!(&events[1], DomainEvent::PeerDiscovery { peer_id, addrs } if peer_id == "p2" && addrs.is_empty()));
    assert_eq!(st.discovered_peers().get(&s("p2")), Some(&vec![]));
    st.on_closest_peers(vec![(s("p1"), vec![s("/ip4/9.9.9.9/tcp/9")])]);
    assert_eq!(st.discovered_peers().get(&s("p1")), Some(&vec![s("/ip4/9.9.9.9/tcp/9")]));
}

#[test]
fn gossip_payload_is_read_lossily() {
    match message_received(s("peerB"), b"hello world") {
        DomainEvent::MessageReceived { peer_id, data } => {
            assert_eq!(peer_id, "peerB");
            assert_eq!(data, "hello world");
        }
        _ => panic!("expected MessageReceived"),
    }
    match message_received(s("peerB"), &[b'o', 0xff, b'k']) {
        DomainEvent::MessageReceived { data, .. } => assert_eq!(data, "o\u{fffd}k"),
        _ => panic!("expected MessageReceived"),
    }
}

#[test]
fn outcomes_become_domain_events() {
    assert!(matches!(publish_outcome(Ok(s("id1"))), DomainEvent::MessagePublished { msg_id } if msg_id == "id1"));
    assert!(matches!(publish_outcome(Err(s("boom"))), DomainEvent::Error { msg } if msg == "Publish error: boom"));
    assert!(matches!(connection_error(s("refused")), DomainEvent::Error { msg } if msg == "Connection error: refused"));
}

#[test]
fn publish_without_peers_reports_an_event() {
    let key = Keypair::generate_ed25519();
    let mut gossip = make_docstore_gossipsub(&key);
    simple_p2p_docstore::gossip::subscribe(&mut gossip).unwrap();
    let (_, _, mut kad) = make_peer_dht(&key.public(), peer_id_of(&key), KadMode::Client);
    let ev = handle_command(Command::Publish(b"doc".to_vec()), &mut gossip, &mut kad);
    match ev {
        Some(DomainEvent::Error { msg }) => assert_eq!(msg, "Publish error: NoPeersSubscribedToTopic"),
        Some(DomainEvent::MessagePublished { .. }) => {}
        _ => panic!("a publish is always reported"),
    }
}

#[test]
fn find_peer_before_any_connection_emits_nothing() {
    let key = Keypair::generate_ed25519();
    let mut gossip = make_docstore_gossipsub(&key);
    let (_, _, mut kad) = make_peer_dht(&key.public(), peer_id_of(&key), KadMode::Client);
    let st = OverlayState::new();
    let ev = handle_command(Command::FindPeer(PeerId::random()), &mut gossip, &mut kad);
    assert!(ev.is_none());
    assert_eq!(st.discovered_peers().len(), 0);
}

#[test]
fn busy_network_does_not_starve_commands() {
    let mut sel = FairSelect::new();
    assert_eq!(sel.preferred(), Source::Commands);
    let mut served = Vec::new();
    for _ in 0..6 {
        let src = sel.select(true, true).unwrap();
        sel.served(src);
        served.push(src);
    }
    assert_eq!(
        served,
        vec![
            Source::Commands,
            Source::Network,
            Source::Commands,
            Source::Network,
            Source::Commands,
            Source::Network
        ]
    );
    let mut sel = FairSelect::new();
    assert_eq!(sel.select(false, true), Some(Source::Network));
    sel.served(Source::Network);
    assert_eq!(sel.select(true, true), Some(Source::Commands));
    assert_eq!(sel.select(false, false), None);
}

#[test]
fn peer_table_operations() {
    let mut t = PeerTable::new();
    t.add_endpoint(s("p"), s("e1"));
    t.add_endpoint(s("p"), s("e2"));
    t.add_endpoint(s("p"), s("e1"));
    assert_eq!(t.get(&s("p")), Some(&vec![s("e1"), s("e2")]));
    t.insert(s("q"), vec![s("x")]);
    assert_eq!(t.len(), 2);
    t.remove(&s("p"));
    assert_eq!(t.len(), 1);
    assert_eq!(t.get(&s("p")), None);
    assert_eq!(t.entries(), &vec![(s("q"), vec![s("x")])]);
    assert!(contains_text(&vec![s("a"), s("b")], &s("b")));
    assert!(!contains_text(&vec![s("a")], &s("c")));
    assert_eq!(copy_texts(&vec![s("a"), s("b")]), vec![s("a"), s("b")]);
}

#[test]
fn find_peer_command_needs_a_peer_id() {
    let p = PeerId::random();
    match simple_p2p_docstore::overlay::find_peer_command(&p.to_string()) {
        Some(Command::FindPeer(q)) => assert_eq!(q, p),
        _ => panic!("expected a lookup"),
    }
    assert!(simple_p2p_docstore::overlay::find_peer_command("not a peer").is_none());
    assert!(simple_p2p_docstore::overlay::find_peer_command("").is_none());
}

#[test]
fn events_carry_their_type_tag() {
    assert_eq!(DomainEvent::Connected { peer_id: s("p") }.kind(), "connected");
    assert_eq!(DomainEvent::Disconnected { peer_id: s("p") }.kind(), "disconnected");
    assert_eq!(
        DomainEvent::MessageReceived { peer_id: s("p"), data: s("d") }.kind(),
        "messageReceived"
    );
    assert_eq!(DomainEvent::MessagePublished { msg_id: s("m") }.kind(), "messagePublished");
    assert_eq!(
        DomainEvent::PeerDiscovery { peer_id: s("p"), addrs: vec![] }.kind(),
        "peerDiscovery"
    );
    assert_eq!(DomainEvent::Error { msg: s("x") }.kind(), "error");
}
