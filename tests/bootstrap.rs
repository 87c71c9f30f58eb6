use libp2p::identity::Keypair;
use libp2p::{Multiaddr, PeerId};
use simple_p2p_docstore::bootstrap::{
    classify_seed, embedded_peer, resolve, resolve_entries, seed_entries, seed_routing_table,
    SeedTarget,
};
use simple_p2p_docstore::identity::peer_id_of;
use simple_p2p_docstore::peer_dht::{make_peer_dht, RoutingOutcome};
use simple_p2p_docstore::role::KadMode;

#[test]
fn seed_list_is_split_trimmed_and_filtered() {
    assert_eq!(seed_entries(" a , b,,c ,  "), vec!["a", "b", "c"]);
    assert_eq!(seed_entries(""), Vec::<String>::new());
    assert_eq!(seed_entries(" , ,"), Vec::<String>::new());
    assert_eq!(seed_entries("one"), vec!["one"]);
    assert_eq!(seed_entries("\t x y \n"), vec!["x y"]);
}

#[test]
fn unicode_white_space_is_trimmed() {
    assert_eq!(seed_entries("\u{3000}a\u{2003},\u{a0}b"), vec!["a", "b"]);
    assert_eq!(seed_entries("\u{200b}a"), vec!["\u{200b}a"]);
}

#[test]
fn seed_with_and_without_peer_id() {
    let a = PeerId::random();
    let list = format!("/ip4/10.0.0.1/tcp/4001/p2p/{a}, /ip4/10.0.0.2/tcp/4001");
    let plan = resolve(&list);
    assert_eq!(plan.direct.len(), 1);
    assert_eq!(plan.dial.len(), 1);
    assert!(plan.invalid.is_empty());
    assert_eq!(plan.direct[0].0, a);
    let expected: Multiaddr = format!("/ip4/10.0.0.1/tcp/4001/p2p/{a}").parse().unwrap();
    assert_eq!(plan.direct[0].1, expected);
    let dial: Multiaddr = "/ip4/10.0.0.2/tcp/4001".parse().unwrap();
    assert_eq!(plan.dial[0], dial);
    assert_eq!(plan.direct_sources, vec![format!("/ip4/10.0.0.1/tcp/4001/p2p/{a}")]);
    assert_eq!(plan.dial_sources, vec!["/ip4/10.0.0.2/tcp/4001"]);
}

#[test]
fn invalid_seeds_are_skipped_not_fatal() {
    let list = "not-an-address, /ip4/10.0.0.3/tcp/1, ip4/1.2.3.4";
    let plan = resolve(list);
    assert_eq!(plan.invalid, vec!["not-an-address", "ip4/1.2.3.4"]);
    assert_eq!(plan.dial.len(), 1);
    assert!(plan.direct.is_empty());
}

#[test]
fn resolve_entries_keeps_order_of_invalid_ones() {
    let entries = vec!["x".to_string(), "/dns4/example.org/tcp/80".to_string(), "y".to_string()];
    let plan = resolve_entries(&entries);
    assert_eq!(plan.invalid, vec!["x", "y"]);
    assert_eq!(plan.dial.len(), 1);
}

#[test]
fn last_peer_component_wins() {
    let a = PeerId::random();
    let b = PeerId::random();
    assert_eq!(embedded_peer(&vec![None, Some(a), None, Some(b), None]), Some(b));
    assert_eq!(embedded_peer(&vec![None, None]), None);
    assert_eq!(embedded_peer(&vec![]), None);
    let addr: Multiaddr = "/ip4/10.0.0.1/tcp/1".parse().unwrap();
    match classify_seed(addr.clone(), &vec![Some(a), None]) {
        SeedTarget::Direct(p, x) => {
            assert_eq!(p, a);
            assert_eq!(x, addr);
        }
        SeedTarget::Dial(_) => panic!("expected a direct entry"),
    }
    assert!(matches!(classify_seed(addr, &vec![None]), SeedTarget::Dial(_)));
}

#[test]
fn routing_table_refresh_needs_a_known_peer() {
    let key = Keypair::generate_ed25519();
    let (_, _, mut kad) = make_peer_dht(&key.public(), peer_id_of(&key), KadMode::Server);
    let (outcomes, started) = seed_routing_table(&mut kad, &vec![]);
    assert!(outcomes.is_empty());
    assert!(!started);
    let a = PeerId::random();
    let plan = resolve(&format!("/ip4/10.0.0.1/tcp/4001/p2p/{a}"));
    let (outcomes, started) = seed_routing_table(&mut kad, &plan.direct);
    assert_eq!(outcomes, vec![RoutingOutcome::Success]);
    assert!(started);
    let (again, started) = seed_routing_table(&mut kad, &plan.direct);
    assert_eq!(again, vec![RoutingOutcome::Success]);
    assert!(started);
    let wrong: Multiaddr = format!("/ip4/10.0.0.1/tcp/4001/p2p/{}", PeerId::random()).parse().unwrap();
    let (failed, _) = seed_routing_table(&mut kad, &vec![(a, wrong)]);
    assert_eq!(failed, vec![RoutingOutcome::Failed]);
}

#[test]
fn empty_seed_text_parses_as_an_empty_address() {
    let plan = resolve_entries(&vec![String::new()]);
    assert!(plan.invalid.is_empty());
    assert_eq!(plan.dial.len(), 1);
    assert!(plan.direct.is_empty());
}
