use libp2p::gossipsub::PublishError;
use libp2p::identity::Keypair;
use libp2p::PeerId;
use simple_p2p_docstore::gossip::{
    docstore_gossip_settings, docstore_topic, make_docstore_gossipsub, make_gossipsub,
    publish_update, subscribe, Authorship, GossipSettings, Validation,
    DOCSTORE_TOPIC, HEARTBEAT_SECS,
};
use simple_p2p_docstore::node::NodeBuilder;
use simple_p2p_docstore::relay::make_relay_behaviour;
use simple_p2p_docstore::role::{compose, kad_mode_for, relay_enabled, KadMode, NodeRole};

#[test]
fn test_subscribe_and_publish() {
    let key = Keypair::generate_ed25519();
    let mut beh = make_docstore_gossipsub(&key);
    assert!(subscribe(&mut beh).is_ok());
    let res = publish_update(&mut beh, b"hello world".to_vec());
    // With no peer in the topic's mesh, publishing either succeeds or reports
    // that no peer is subscribed; it never panics.
    assert!(matches!(res, Ok(_) | Err(PublishError::NoPeersSubscribedToTopic)));
}

#[test]
fn build_relay_behaviour() {
    let _ = make_relay_behaviour(PeerId::random());
}

#[test]
fn subscribing_twice_is_no_error() {
    let key = Keypair::generate_ed25519();
    let mut beh = make_docstore_gossipsub(&key);
    assert!(subscribe(&mut beh).is_ok());
    assert!(subscribe(&mut beh).is_ok());
}

#[test]
fn docstore_settings_are_strict_with_one_second_heartbeat() {
    let s = docstore_gossip_settings();
    assert_eq!(s.validation, Validation::Strict);
    assert_eq!(s.heartbeat_secs, 1);
    assert_eq!(s.authorship, Authorship::Signed);
    assert_eq!(HEARTBEAT_SECS, 1);
    assert_eq!(DOCSTORE_TOPIC, "docstore/v1/updates");
    assert_eq!(docstore_topic(), "docstore/v1/updates");
}

#[test]
fn role_composition_for_every_role() {
    let client = compose(NodeRole::Client);
    assert!(!client.relay);
    for role in [NodeRole::Relay, NodeRole::FullNode] {
        let m = compose(role);
        assert!(m.relay);
        assert_eq!(m.kad_mode, KadMode::Server);
    }
    for role in [NodeRole::Client, NodeRole::Relay, NodeRole::FullNode] {
        let m = compose(role);
        assert!(m.ping && m.identify && m.gossip);
        assert_eq!(m.kad_mode, kad_mode_for(role));
        assert_eq!(m.relay, relay_enabled(role));
    }
}

#[test]
fn build_behaviours_follows_the_role() {
    let key = Keypair::generate_ed25519();
    let client = NodeBuilder::new(NodeRole::Client).build_behaviours(&key);
    assert!(client.relay.is_none());
    assert_eq!(client.kademlia.mode(), libp2p_kad::Mode::Client);
    for role in [NodeRole::Relay, NodeRole::FullNode] {
        let b = NodeBuilder::new(role).build_behaviours(&key);
        assert!(b.relay.is_some());
        assert_eq!(b.kademlia.mode(), libp2p_kad::Mode::Server);
    }
}

#[test]
fn builder_keeps_role_and_seeds_in_order() {
    let a: libp2p::Multiaddr = "/ip4/10.0.0.1/tcp/4001".parse().unwrap();
    let b: libp2p::Multiaddr = "/ip4/10.0.0.2/tcp/4001".parse().unwrap();
    let builder = NodeBuilder::new(NodeRole::FullNode)
        .add_bootstrap(a.clone())
        .add_bootstrap(b.clone());
    assert_eq!(builder.role(), NodeRole::FullNode);
    assert_eq!(builder.bootstrap_peers(), &vec![a, b]);
}

#[test]
fn strict_validation_needs_signing() {
    let key = Keypair::generate_ed25519();
    let settings = |validation, authorship| GossipSettings { validation, authorship, heartbeat_secs: 1 };
    assert!(make_gossipsub(&key, settings(Validation::Strict, Authorship::Signed)).is_some());
    assert!(make_gossipsub(&key, settings(Validation::Strict, Authorship::Anonymous)).is_none());
    assert!(make_gossipsub(&key, settings(Validation::Permissive, Authorship::Signed)).is_some());
    assert!(make_gossipsub(&key, settings(Validation::Permissive, Authorship::Anonymous)).is_some());
    let slow = GossipSettings {
        validation: Validation::Strict,
        authorship: Authorship::Signed,
        heartbeat_secs: 3600,
    };
    assert!(make_gossipsub(&key, slow).is_some());
}

#[test]
fn subscribing_joins_the_docstore_topic() {
    let key = Keypair::generate_ed25519();
    let mut beh = make_docstore_gossipsub(&key);
    assert_eq!(beh.topics().count(), 0);
    subscribe(&mut beh).unwrap();
    subscribe(&mut beh).unwrap();
    let topics: Vec<String> = beh.topics().map(|t| t.to_string()).collect();
    assert_eq!(topics, vec!["docstore/v1/updates".to_string()]);
    let _ = publish_update(&mut beh, b"doc".to_vec());
    assert_eq!(beh.topics().count(), 1);
}
