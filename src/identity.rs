//! The node's persistent identity: a keypair kept in one file, and the peer id
//! derived from it.
use vstd::prelude::*;
use libp2p::identity::{Keypair, PublicKey};
use libp2p::PeerId;

verus! {

/// libp2p's asymmetric keypair.
#[verifier::external_type_specification]
#[verifier::external_body]
pub struct ExKeypair(Keypair);

/// The public half of a keypair.
#[verifier::external_type_specification]
#[verifier::external_body]
pub struct ExPublicKey(PublicKey);

/// libp2p's peer id, derived from a public key.
#[verifier::external_type_specification]
#[verifier::external_body]
pub struct ExPeerId(PeerId);

/// Whether `Keypair::from_protobuf_encoding` accepts these bytes.
pub uninterp spec fn keypair_decodes(bytes: Seq<u8>) -> bool;

/// The peer id, as base58 text, of the keypair that these bytes decode to.
pub uninterp spec fn encoded_peer(bytes: Seq<u8>) -> Seq<char>;

/// Relies on Keypair::from_protobuf_encoding, whose success depends on the bytes
/// alone, and on the text of PeerId::from_public_key for the decoded key.
#[verifier::external_body]
fn decode_keypair(bytes: &[u8]) -> (r: Option<(Keypair, String)>)
    ensures
        r.is_some() == keypair_decodes(bytes@),
        r is Some ==> r.unwrap().1@ == encoded_peer(bytes@),
{
    let key = Keypair::from_protobuf_encoding(bytes).ok()?;
    let peer = PeerId::from_public_key(&key.public()).to_base58();
    Some((key, peer))
}

/// Relies on Keypair::generate_ed25519: a fresh random Ed25519 keypair.
#[verifier::external_body]
fn generate_keypair() -> Keypair {
    Keypair::generate_ed25519()
}

/// Relies on Keypair::to_protobuf_encoding, with the text of the key's peer id
/// (PeerId::from_public_key). Encoding fails only for RSA keys, a key type that
/// this crate does not enable; Keypair::from_protobuf_encoding gives back a key
/// with the same public half, hence the same peer id.
#[verifier::external_body]
fn encode_keypair(key: &Keypair) -> (r: Option<(Vec<u8>, String)>)
    ensures
        r is Some,
        r is Some ==> keypair_decodes(r.unwrap().0@),
        r is Some ==> encoded_peer(r.unwrap().0@) == r.unwrap().1@,
{
    let bytes = key.to_protobuf_encoding().ok()?;
    Some((bytes, PeerId::from_public_key(&key.public()).to_base58()))
}

/// Relies on Keypair::public: the public half of the keypair.
#[verifier::external_body]
fn public_key(key: &Keypair) -> PublicKey {
    key.public()
}

/// Relies on PeerId::from_public_key: the peer id that a public key determines.
#[verifier::external_body]
fn peer_id_from_public(key: &PublicKey) -> PeerId {
    PeerId::from_public_key(key)
}

/// Where a node's identity came from.
#[derive(Debug, Clone, Copy, PartialEq, Eq, Structural)]
pub enum IdentitySource {
    /// Decoded from the stored key file.
    Loaded,
    /// The stored key file could not be decoded; a new keypair was generated.
    ReplacedCorrupt,
    /// No key file was stored; a new keypair was generated.
    Generated,
}

/// Where the identity comes from, given the stored key file's bytes if there is one.
pub open spec fn identity_source(stored: Option<Seq<u8>>) -> IdentitySource {
    match stored {
        Some(bytes) => if keypair_decodes(bytes) {
            IdentitySource::Loaded
        } else {
            IdentitySource::ReplacedCorrupt
        },
        None => IdentitySource::Generated,
    }
}

/// Whether a keypair from this source has to be written to the key file.
pub open spec fn needs_persist(source: IdentitySource) -> bool {
    source != IdentitySource::Loaded
}

/// A node's identity: its keypair, its peer id as text, and the encoding that
/// is (or is to be) kept in the key file.
pub struct Identity {
    pub keypair: Keypair,
    pub peer_id: String,
    pub encoded: Vec<u8>,
    pub source: IdentitySource,
}

/// The encoding decodes to a key whose peer id is `peer_id`.
pub open spec fn identity_consistent(id: Identity) -> bool {
    keypair_decodes(id.encoded@) && encoded_peer(id.encoded@) == id.peer_id@
}

/// What loading from `stored` gives: the source, a consistent identity, and for a
/// stored key that decodes, exactly that key's encoding.
pub open spec fn loads_as(stored: Option<Seq<u8>>, id: Identity) -> bool {
    &&& id.source == identity_source(stored)
    &&& identity_consistent(id)
    &&& id.source == IdentitySource::Loaded ==> Some(id.encoded@) == stored
}

/// Decodes a stored keypair with its peer id text; `None` when the bytes are not
/// a valid encoding.
pub fn decode_identity(bytes: &[u8]) -> (r: Option<(Keypair, String)>)
    ensures
        r.is_some() == keypair_decodes(bytes@),
        r is Some ==> r.unwrap().1@ == encoded_peer(bytes@),
{
    decode_keypair(bytes)
}

/// Encodes a keypair for the key file, with its peer id text; the bytes decode
/// to a key with that peer id.
pub fn encode_identity(key: &Keypair) -> (r: (Vec<u8>, String))
    ensures
        keypair_decodes(r.0@),
        encoded_peer(r.0@) == r.1@,
{
    encode_keypair(key).unwrap()
}

/// The public half of a keypair.
pub fn public_key_of(key: &Keypair) -> PublicKey {
    public_key(key)
}

/// The peer id derived from a keypair.
pub fn peer_id_of(key: &Keypair) -> PeerId {
    peer_id_from_public(&public_key(key))
}

/// Takes the identity from the stored key file when it decodes, and otherwise
/// generates a new one: a corrupt file is treated as no file, never as an error.
/// The identity's encoding is the stored bytes when they were loaded, else the
/// new key's own encoding, which is what the key file must then hold.
pub fn load_or_generate(stored: Option<Vec<u8>>) -> (r: Identity)
    ensures
        loads_as(
            match stored {
                Some(b) => Some(b@),
                None => None,
            },
            r,
        ),
{
    match stored {
        Some(bytes) => match decode_keypair(bytes.as_slice()) {
            Some((keypair, peer_id)) => Identity {
                keypair,
                peer_id,
                encoded: bytes,
                source: IdentitySource::Loaded,
            },
            None => fresh_identity(IdentitySource::ReplacedCorrupt),
        },
        None => fresh_identity(IdentitySource::Generated),
    }
}

/// A newly generated identity, with its own encoding.
fn fresh_identity(source: IdentitySource) -> (r: Identity)
    ensures
        r.source == source,
        identity_consistent(r),
{
    let keypair = generate_keypair();
    let (encoded, peer_id) = encode_identity(&keypair);
    Identity { keypair, peer_id, encoded, source }
}

/// Writing an identity's encoding to the key file and loading it again gives an
/// identity with the same peer id, loaded and not written again.
pub proof fn persisted_identity_reloads(first: Identity, second: Identity)
    requires
        identity_consistent(first),
        loads_as(Some(first.encoded@), second),
    ensures
        second.source == IdentitySource::Loaded,
        second.peer_id@ == first.peer_id@,
        !needs_persist(second.source),
{
}

/// Whether the identity must be written to the key file.
pub fn must_persist(source: IdentitySource) -> (r: bool)
    ensures
        r == needs_persist(source),
{
    match source {
        IdentitySource::Loaded => false,
        _ => true,
    }
}

/// The key file path: an explicit override wins over the default.
pub fn choose_key_path(override_path: Option<String>, default_path: String) -> (r: String)
    ensures
        r@ == match override_path {
            Some(p) => p@,
            None => default_path@,
        },
{
    match override_path {
        Some(p) => p,
        None => default_path,
    }
}

} // verus!
