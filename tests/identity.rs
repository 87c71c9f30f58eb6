use libp2p::identity::Keypair;
use libp2p::PeerId;
use simple_p2p_docstore::identity::{
    choose_key_path, decode_identity, encode_identity, load_or_generate, must_persist,
    peer_id_of, IdentitySource,
};

#[test]
fn identity_round_trip_keeps_peer_id() {
    let key = Keypair::generate_ed25519();
    let (bytes, text) = encode_identity(&key);
    assert_eq!(text, peer_id_of(&key).to_string());
    let (back, back_text) = decode_identity(&bytes).expect("own encoding decodes");
    assert_eq!(peer_id_of(&back), peer_id_of(&key));
    assert_eq!(back_text, text);
    assert_eq!(peer_id_of(&key), PeerId::from(key.public()));
}

#[test]
fn stored_identity_is_loaded() {
    let key = Keypair::generate_ed25519();
    let (bytes, text) = encode_identity(&key);
    let id = load_or_generate(Some(bytes.clone()));
    assert_eq!(id.source, IdentitySource::Loaded);
    assert_eq!(peer_id_of(&id.keypair), peer_id_of(&key));
    assert_eq!(id.peer_id, text);
    assert_eq!(id.encoded, bytes);
    assert!(!must_persist(id.source));
}

#[test]
fn corrupt_identity_file_is_replaced() {
    let corrupt = b"not a protobuf keypair".to_vec();
    assert!(decode_identity(&corrupt).is_none());
    let id = load_or_generate(Some(corrupt.clone()));
    assert_eq!(id.source, IdentitySource::ReplacedCorrupt);
    assert!(must_persist(id.source));
    assert_ne!(id.encoded, corrupt);
    assert_eq!(id.peer_id, peer_id_of(&id.keypair).to_string());
    let (reloaded, text) = decode_identity(&id.encoded).unwrap();
    assert_eq!(peer_id_of(&reloaded), peer_id_of(&id.keypair));
    assert_eq!(text, id.peer_id);
}

#[test]
fn persisted_identity_reloads_with_same_peer_id() {
    let first = load_or_generate(None);
    let second = load_or_generate(Some(first.encoded.clone()));
    assert_eq!(second.source, IdentitySource::Loaded);
    assert_eq!(second.peer_id, first.peer_id);
    assert_eq!(peer_id_of(&second.keypair), peer_id_of(&first.keypair));
}

#[test]
fn empty_identity_file_is_replaced() {
    let id = load_or_generate(Some(vec![]));
    assert_eq!(id.source, IdentitySource::ReplacedCorrupt);
}

#[test]
fn missing_identity_file_generates_one() {
    let a = load_or_generate(None);
    assert_eq!(a.source, IdentitySource::Generated);
    assert!(must_persist(a.source));
    let b = load_or_generate(None);
    assert_ne!(a.peer_id, b.peer_id);
    assert_eq!(a.keypair.key_type(), libp2p::identity::KeyType::Ed25519);
}

#[test]
fn key_path_override_wins() {
    assert_eq!(
        choose_key_path(Some("/etc/node.key".to_string()), "./.p2p/identity.key".to_string()),
        "/etc/node.key"
    );
    assert_eq!(choose_key_path(None, "./.p2p/identity.key".to_string()), "./.p2p/identity.key");
}
