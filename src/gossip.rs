//! The gossip module: the docstore topic, its configuration, subscribing and publishing.
use vstd::prelude::*;
use libp2p::gossipsub;
use libp2p::identity::Keypair;

verus! {

/// gossipsub's protocol module.
#[verifier::external_type_specification]
#[verifier::external_body]
#[verifier::reject_recursive_types(D)]
#[verifier::reject_recursive_types(F)]
pub struct ExGossipBehaviour<D, F>(gossipsub::Behaviour<D, F>);

/// gossipsub's payload transform that leaves payloads as they are.
#[verifier::external_type_specification]
#[verifier::external_body]
pub struct ExIdentityTransform(gossipsub::IdentityTransform);

/// gossipsub's subscription filter that allows every topic.
#[verifier::external_type_specification]
#[verifier::external_body]
pub struct ExAllowAllFilter(gossipsub::AllowAllSubscriptionFilter);

/// The id that gossipsub gives a published message.
#[verifier::external_type_specification]
#[verifier::external_body]
pub struct ExMessageId(gossipsub::MessageId);

/// Why gossipsub refused to publish.
#[verifier::external_type_specification]
#[verifier::external_body]
pub struct ExPublishError(gossipsub::PublishError);

/// Why gossipsub refused a subscription.
#[verifier::external_type_specification]
#[verifier::external_body]
pub struct ExSubscriptionError(gossipsub::SubscriptionError);

/// The gossip module as the node composes it: no payload transform, every topic allowed.
pub type GossipBehaviour =
    gossipsub::Behaviour<gossipsub::IdentityTransform, gossipsub::AllowAllSubscriptionFilter>;

/// Name of the topic on which document updates are broadcast.
pub const DOCSTORE_TOPIC: &'static str = "docstore/v1/updates";

/// Seconds between two heartbeats of mesh maintenance.
pub const HEARTBEAT_SECS: u64 = 1;

/// The longest heartbeat period, in seconds, that the module is built with.
pub const MAX_HEARTBEAT_SECS: u64 = 1_000_000_000;

/// How strictly inbound messages are validated.
#[derive(Debug, Clone, Copy, PartialEq, Eq, Structural)]
pub enum Validation {
    /// Every message must carry a valid signature of its author.
    Strict,
    /// Signatures are checked when present.
    Permissive,
}

/// How published messages are authored.
#[derive(Debug, Clone, Copy, PartialEq, Eq, Structural)]
pub enum Authorship {
    /// Signed with the node's key, which names the author.
    Signed,
    /// Neither signed nor authored.
    Anonymous,
}

/// The settings that the gossip module is built with.
#[derive(Debug, Clone, Copy, PartialEq, Eq, Structural)]
pub struct GossipSettings {
    pub validation: Validation,
    pub authorship: Authorship,
    pub heartbeat_secs: u64,
}

/// The docstore settings: signed messages, strict validation, a heartbeat every second.
pub open spec fn docstore_settings() -> GossipSettings {
    GossipSettings {
        validation: Validation::Strict,
        authorship: Authorship::Signed,
        heartbeat_secs: HEARTBEAT_SECS,
    }
}

/// Whether gossipsub accepts the combination: strict validation would reject the
/// node's own unsigned messages.
pub open spec fn settings_consistent(settings: GossipSettings) -> bool {
    !(settings.validation == Validation::Strict && settings.authorship == Authorship::Anonymous)
}

pub fn docstore_gossip_settings() -> (r: GossipSettings)
    ensures
        r == docstore_settings(),
{
    GossipSettings {
        validation: Validation::Strict,
        authorship: Authorship::Signed,
        heartbeat_secs: HEARTBEAT_SECS,
    }
}

/// Whether the module rejects every message without a valid signature of its author.
pub uninterp spec fn gossip_strict(beh: GossipBehaviour) -> bool;

/// Whether the module signs what it publishes with the node's key.
pub uninterp spec fn gossip_signs(beh: GossipBehaviour) -> bool;

/// The module's heartbeat period, in whole seconds.
pub uninterp spec fn gossip_heartbeat_secs(beh: GossipBehaviour) -> nat;

/// The names of the topics that the module has joined.
pub uninterp spec fn gossip_topics(beh: GossipBehaviour) -> Set<Seq<char>>;

/// Relies on gossipsub::ConfigBuilder and gossipsub::Behaviour::new. `build` checks
/// only mesh, history, backoff and protocol settings, which stay at their valid
/// defaults; `new` refuses only strict validation without signing. A zero or
/// huge heartbeat would make `new` panic.
#[verifier::external_body]
fn new_gossip_behaviour(key: &Keypair, settings: GossipSettings) -> (r: Option<GossipBehaviour>)
    requires
        1 <= settings.heartbeat_secs <= MAX_HEARTBEAT_SECS,
    ensures
        r is Some == settings_consistent(settings),
        r is Some ==> gossip_strict(r.unwrap()) == (settings.validation == Validation::Strict),
        r is Some ==> gossip_signs(r.unwrap()) == (settings.authorship == Authorship::Signed),
        r is Some ==> gossip_heartbeat_secs(r.unwrap()) == settings.heartbeat_secs,
        r is Some ==> gossip_topics(r.unwrap()) == Set::<Seq<char>>::empty(),
{
    let mode = match settings.validation {
        Validation::Strict => gossipsub::ValidationMode::Strict,
        Validation::Permissive => gossipsub::ValidationMode::Permissive,
    };
    let authenticity = match settings.authorship {
        Authorship::Signed => gossipsub::MessageAuthenticity::Signed(key.clone()),
        Authorship::Anonymous => gossipsub::MessageAuthenticity::Anonymous,
    };
    let config = gossipsub::ConfigBuilder::default().validation_mode(mode).heartbeat_interval(
        std::time::Duration::from_secs(settings.heartbeat_secs),
    ).build().ok()?;
    GossipBehaviour::new(authenticity, config).ok()
}

/// Relies on gossipsub::Behaviour::subscribe, on the topic named `topic`
/// (gossipsub::IdentTopic, whose hash is the name itself). The allow-all filter
/// never refuses a topic, and a topic already joined gives `Ok(false)`; the
/// settings stay.
#[verifier::external_body]
fn gossip_subscribe(
    beh: &mut GossipBehaviour,
    topic: &str,
) -> (r: Result<bool, gossipsub::SubscriptionError>)
    ensures
        r is Ok,
        gossip_topics(*final(beh)) == gossip_topics(*old(beh)).insert(topic@),
        gossip_strict(*final(beh)) == gossip_strict(*old(beh)),
        gossip_signs(*final(beh)) == gossip_signs(*old(beh)),
        gossip_heartbeat_secs(*final(beh)) == gossip_heartbeat_secs(*old(beh)),
{
    beh.subscribe(&gossipsub::IdentTopic::new(topic))
}

/// Relies on gossipsub::Behaviour::publish, on the topic named `topic`; it joins
/// no topic and keeps the settings.
#[verifier::external_body]
fn gossip_publish(
    beh: &mut GossipBehaviour,
    topic: &str,
    data: Vec<u8>,
) -> (r: Result<gossipsub::MessageId, gossipsub::PublishError>)
    ensures
        gossip_topics(*final(beh)) == gossip_topics(*old(beh)),
        gossip_strict(*final(beh)) == gossip_strict(*old(beh)),
        gossip_signs(*final(beh)) == gossip_signs(*old(beh)),
        gossip_heartbeat_secs(*final(beh)) == gossip_heartbeat_secs(*old(beh)),
{
    beh.publish(gossipsub::IdentTopic::new(topic), data)
}

/// The name of the topic used for public document updates.
pub fn docstore_topic() -> (r: &'static str)
    ensures
        r@ == DOCSTORE_TOPIC@,
{
    DOCSTORE_TOPIC
}

/// Builds the gossip module from `settings`; `None` exactly when the settings
/// are inconsistent.
pub fn make_gossipsub(local_key: &Keypair, settings: GossipSettings) -> (r: Option<GossipBehaviour>)
    requires
        1 <= settings.heartbeat_secs <= MAX_HEARTBEAT_SECS,
    ensures
        r is Some == settings_consistent(settings),
        r is Some ==> gossip_strict(r.unwrap()) == (settings.validation == Validation::Strict),
        r is Some ==> gossip_signs(r.unwrap()) == (settings.authorship == Authorship::Signed),
        r is Some ==> gossip_heartbeat_secs(r.unwrap()) == settings.heartbeat_secs,
        r is Some ==> gossip_topics(r.unwrap()) == Set::<Seq<char>>::empty(),
{
    new_gossip_behaviour(local_key, settings)
}

/// Builds the gossip module for the docstore: messages signed with `local_key`,
/// strict validation and a one-second heartbeat, no topic joined yet. This
/// always succeeds.
pub fn make_docstore_gossipsub(local_key: &Keypair) -> (r: GossipBehaviour)
    ensures
        gossip_strict(r),
        gossip_signs(r),
        gossip_heartbeat_secs(r) == HEARTBEAT_SECS,
        gossip_topics(r) == Set::<Seq<char>>::empty(),
{
    let settings = docstore_gossip_settings();
    make_gossipsub(local_key, settings).unwrap()
}

/// Subscribes the gossip module to the docstore topic; this never fails, also
/// when the module is subscribed already, which changes nothing.
pub fn subscribe(beh: &mut GossipBehaviour) -> (r: Result<(), gossipsub::SubscriptionError>)
    ensures
        r is Ok,
        gossip_topics(*final(beh)) == gossip_topics(*old(beh)).insert(DOCSTORE_TOPIC@),
        gossip_strict(*final(beh)) == gossip_strict(*old(beh)),
        gossip_signs(*final(beh)) == gossip_signs(*old(beh)),
        gossip_heartbeat_secs(*final(beh)) == gossip_heartbeat_secs(*old(beh)),
{
    match gossip_subscribe(beh, docstore_topic()) {
        Ok(_) => Ok(()),
        Err(e) => Err(e),
    }
}

/// Publishes `data` on the docstore topic; the joined topics and the settings stay.
pub fn publish_update(
    beh: &mut GossipBehaviour,
    data: Vec<u8>,
) -> (r: Result<gossipsub::MessageId, gossipsub::PublishError>)
    ensures
        gossip_topics(*final(beh)) == gossip_topics(*old(beh)),
        gossip_strict(*final(beh)) == gossip_strict(*old(beh)),
        gossip_signs(*final(beh)) == gossip_signs(*old(beh)),
        gossip_heartbeat_secs(*final(beh)) == gossip_heartbeat_secs(*old(beh)),
{
    gossip_publish(beh, docstore_topic(), data)
}

} // verus!
