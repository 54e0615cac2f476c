//! What the library takes on trust: types of libp2p that it carries around,
//! and the functions of libp2p and of the standard library that it calls.
use crate::config::message_id;
use libp2p::gossipsub::{ConfigBuilder, ConfigBuilderError, MessageId, ValidationMode};
use libp2p::identity::PublicKey;
use libp2p::swarm::dial_opts::DialOpts;
use libp2p::swarm::ConnectionId;
use libp2p::{Multiaddr, PeerId, StreamProtocol};
use std::hash::{DefaultHasher, Hash};
use std::time::Duration;
use vstd::endian::Endian;
use vstd::prelude::*;
use vstd::utf8::encode_utf8;

verus! {

/// A multiaddress.
#[verifier::external_type_specification]
#[verifier::external_body]
pub struct ExMultiaddr(Multiaddr);

/// Why a text is not a multiaddress.
#[verifier::external_type_specification]
#[verifier::external_body]
pub struct ExMultiaddrError(libp2p::multiaddr::Error);

/// The identity of a peer.
#[verifier::external_type_specification]
#[verifier::external_body]
pub struct ExPeerId(PeerId);

/// The number that the swarm knows a connection by.
#[verifier::external_type_specification]
#[verifier::external_body]
pub struct ExConnectionId(ConnectionId);

/// What the swarm is told about a connection to dial.
#[verifier::external_type_specification]
#[verifier::external_body]
pub struct ExDialOpts(DialOpts);

/// How the gossip protocol is configured.
#[verifier::external_type_specification]
#[verifier::external_body]
pub struct ExGossipConfig(libp2p::gossipsub::Config);

/// Why a configuration of the gossip protocol was refused.
#[verifier::external_type_specification]
#[verifier::external_body]
pub struct ExGossipConfigError(ConfigBuilderError);

/// How strictly gossip messages are checked. Its variants hold nothing.
#[verifier::external_type_specification]
pub struct ExValidationMode(ValidationMode);

/// How the Kademlia protocol is configured.
#[verifier::external_type_specification]
#[verifier::external_body]
pub struct ExKadConfig(libp2p::kad::Config);

/// How the identify protocol is configured.
#[verifier::external_type_specification]
#[verifier::external_body]
pub struct ExIdentifyConfig(libp2p::identify::Config);

/// The public key of a node.
#[verifier::external_type_specification]
#[verifier::external_body]
pub struct ExPublicKey(PublicKey);

/// The multiaddress that `Multiaddr::from_str` reads in a text, if it reads
/// one.
pub uninterp spec fn multiaddr_of(text: Seq<char>) -> Option<Multiaddr>;

/// The addresses that dial options hold.
pub uninterp spec fn dial_addresses(opts: DialOpts) -> Seq<Multiaddr>;

/// The peer that dial options name: their field `peer_id`, which is apart from
/// a peer that one of their addresses may end in.
pub uninterp spec fn dial_peer(opts: DialOpts) -> Option<PeerId>;

/// The connection that dial options are for.
pub uninterp spec fn dial_connection(opts: DialOpts) -> ConnectionId;

/// The writes that `<Vec<u8> as Hash>::hash` makes to a hasher for a vector of
/// these bytes, on a machine of this byte order and word size.
pub uninterp spec fn vec_hash_writes(data: Seq<u8>, order: Endian, word_bits: u32) -> Seq<Seq<u8>>;

/// The bytes of the identity that `gossipsub::Config::message_id` gives a
/// message with these contents.
pub uninterp spec fn gossip_message_id(
    config: libp2p::gossipsub::Config,
    source: Option<PeerId>,
    data: Seq<u8>,
    sequence_number: Option<u64>,
    topic: Seq<char>,
) -> Seq<u8>;

/// The configuration that gossipsub's `ConfigBuilder` builds from its defaults
/// with this mesh size, lower and outbound bounds, heartbeat in seconds and
/// validation mode, and with [`message_id`] for the identity of messages.
pub uninterp spec fn gossip_config_of(
    mesh_n: usize,
    mesh_n_low: usize,
    mesh_outbound_min: usize,
    heartbeat_secs: u64,
    validation: ValidationMode,
) -> libp2p::gossipsub::Config;

/// The configuration that `kad::Config::new` builds for a protocol name.
pub uninterp spec fn kad_config_of(protocol: Seq<char>) -> libp2p::kad::Config;

/// The configuration that `identify::Config::new` builds for a protocol name
/// and a node's key, with `with_interval` setting the interval in seconds.
pub uninterp spec fn identify_config_of(
    protocol: Seq<char>,
    key: PublicKey,
    interval_secs: u64,
) -> libp2p::identify::Config;

/// `<ConnectionId as PartialEq>::eq`, which is derived and compares the one
/// number that an identifier is made of.
pub assume_specification[ <ConnectionId as PartialEq>::eq ](
    id: &ConnectionId,
    other: &ConnectionId,
) -> (same: bool)
    ensures
        same == (*id == *other),
;

/// `<DialOpts as From<Multiaddr>>::from`: the options hold that address and no
/// other, and their field `peer_id` names no peer. They are given the next
/// connection identifier of the process, of which nothing is said here.
pub assume_specification[ <DialOpts as From<Multiaddr>>::from ](address: Multiaddr) -> (opts:
    DialOpts)
    ensures
        dial_addresses(opts) == seq![address],
        dial_peer(opts) is None,
;

/// `DialOpts::connection_id` hands out the identifier that the options hold.
pub assume_specification[ DialOpts::connection_id ](opts: &DialOpts) -> (id: ConnectionId)
    ensures
        id == dial_connection(*opts),
;

/// `<Multiaddr as FromStr>::from_str`: reads a multiaddress. The text of an
/// IPv4 address in dotted decimal, a UDP port in decimal and `quic-v1` is one.
#[verifier::external_body]
pub(crate) fn parse_multiaddr(text: &str) -> (result: Result<Multiaddr, libp2p::multiaddr::Error>)
    ensures
        match result {
            Ok(address) => multiaddr_of(text@) == Some(address),
            Err(_) => multiaddr_of(text@) is None,
        },
        forall|octets: Seq<u8>, port: u16|
            octets.len() == 4 && text@ == #[trigger] crate::dial::quic_text(octets, port)
                ==> result is Ok,
{
    text.parse::<Multiaddr>()
}

/// `<Vec<u8> as Hash>::hash`: feeds the hasher, after what it was fed before,
/// with writes that the bytes of the vector and the machine decide. Which
/// writes these are is not said here.
#[verifier::external_body]
pub(crate) fn hash_bytes(data: &Vec<u8>, hasher: &mut DefaultHasher)
    ensures
        final(hasher)@ == old(hasher)@ + vec_hash_writes(
            data@,
            vstd::endian::endianness(),
            usize::BITS,
        ),
{
    data.hash(hasher)
}

/// gossipsub's `ConfigBuilder`: takes the values over into the defaults, and
/// `build` accepts them if the outbound bound is no more than half the mesh
/// size and no more than the lower bound, that one no more than the mesh size,
/// and the mesh size no more than the upper bound, which is 12. What it builds
/// gives a message the identity that the closure gives it: the bytes of the
/// text that [`message_id`] gives for its data.
#[verifier::external_body]
pub(crate) fn build_gossip_config(
    mesh_n: usize,
    mesh_n_low: usize,
    mesh_outbound_min: usize,
    heartbeat_secs: u64,
    validation: ValidationMode,
) -> (result: Result<libp2p::gossipsub::Config, ConfigBuilderError>)
    ensures
        result matches Ok(config) ==> forall|
            source: Option<PeerId>,
            data: Seq<u8>,
            sequence_number: Option<u64>,
            topic: Seq<char>,
        |
            #[trigger] gossip_message_id(config, source, data, sequence_number, topic)
                == encode_utf8(crate::config::id_of(data)),
        match result {
            Ok(config) => {
                &&& crate::config::mesh_accepted(mesh_n, mesh_n_low, mesh_outbound_min)
                &&& config == gossip_config_of(
                    mesh_n,
                    mesh_n_low,
                    mesh_outbound_min,
                    heartbeat_secs,
                    validation,
                )
            },
            Err(_) => !crate::config::mesh_accepted(mesh_n, mesh_n_low, mesh_outbound_min),
        },
{
    ConfigBuilder::default()
        .mesh_n(mesh_n)
        .mesh_n_low(mesh_n_low)
        .mesh_outbound_min(mesh_outbound_min)
        .heartbeat_interval(Duration::from_secs(heartbeat_secs))
        .validation_mode(validation)
        .message_id_fn(|message| MessageId::from(message_id(&message.data)))
        .build()
}

/// `kad::Config::new` on `StreamProtocol::new`, which panics on a name that
/// does not start with a slash.
#[verifier::external_body]
pub(crate) fn build_kad_config(protocol: &'static str) -> (config: libp2p::kad::Config)
    requires
        protocol@.len() > 0,
        protocol@[0] == '/',
    ensures
        config == kad_config_of(protocol@),
{
    libp2p::kad::Config::new(StreamProtocol::new(protocol))
}

/// `identify::Config::new` and `identify::Config::with_interval`: take the
/// values over into the defaults.
#[verifier::external_body]
pub(crate) fn build_identify_config(
    protocol: String,
    key: PublicKey,
    interval_secs: u64,
) -> (config: libp2p::identify::Config)
    ensures
        config == identify_config_of(protocol@, key, interval_secs),
{
    libp2p::identify::Config::new(protocol, key).with_interval(Duration::from_secs(interval_secs))
}

} // verus!
