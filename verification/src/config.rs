//! How the node's protocols are configured.
use crate::error::NodeError;
use crate::outside::{build_gossip_config, build_identify_config, build_kad_config, hash_bytes};
use crate::text::decimal_text;
use libp2p::gossipsub::ValidationMode;
use libp2p::identity::PublicKey;
use libp2p::PeerId;
use std::hash::{DefaultHasher, Hasher};
use vstd::prelude::*;
use vstd::std_specs::hash::DefaultHasherAdditionalSpecFns;
use vstd::utf8::encode_utf8;

verus! {

/// The name of the node's protocol for Kademlia and for identification.
pub const KAD_PROTOCOL: &'static str = "/kad/1.0.0";

/// How often peers are told who the node is, in seconds.
pub const IDENTIFY_INTERVAL_SECS: u64 = 60;

/// How many peers the node gossips with.
pub const MESH_N: usize = 3;

/// How few peers the node gossips with before it looks for more.
pub const MESH_N_LOW: usize = 2;

/// How many of the peers it gossips with the node has dialed, at least.
pub const MESH_OUTBOUND_MIN: usize = 1;

/// How often the node tends its mesh, in seconds.
pub const HEARTBEAT_SECS: u64 = 1;

/// Whether the node looks for peers on the local network.
pub const ENABLE_MDNS: bool = false;

/// How many commands, and how many events, can wait to be taken up.
pub const CHANNEL_CAPACITY: usize = 100;

/// Whether a mesh of these bounds is one that gossipsub accepts.
pub open spec fn mesh_accepted(mesh_n: usize, mesh_n_low: usize, mesh_outbound_min: usize) -> bool {
    &&& mesh_outbound_min <= mesh_n_low <= mesh_n <= 12
    &&& mesh_outbound_min * 2 <= mesh_n
}

/// The identity of a message whose data hashes to `hash`.
pub fn message_id_text(hash: u64) -> (id: String)
    ensures
        id@ == crate::text::decimal(hash as nat),
{
    decimal_text(hash)
}

/// The hash of `data`, on the machine that the node runs on.
pub open spec fn data_hash(data: Seq<u8>) -> u64 {
    DefaultHasher::spec_finish(
        crate::outside::vec_hash_writes(data, vstd::endian::endianness(), usize::BITS),
    )
}

/// The identity of a message with this data: their hash in decimal.
pub open spec fn id_of(data: Seq<u8>) -> Seq<char> {
    crate::text::decimal(data_hash(data) as nat)
}

/// The identity of a message with this data: their hash in decimal.
pub fn message_id(data: &Vec<u8>) -> (id: String)
    ensures
        id@ == id_of(data@),
        id@ == crate::text::decimal(
            DefaultHasher::spec_finish(
                crate::outside::vec_hash_writes(data@, vstd::endian::endianness(), usize::BITS),
            ) as nat,
        ),
{
    let mut hasher = DefaultHasher::new();
    hash_bytes(data, &mut hasher);
    message_id_text(hasher.finish())
}

/// Whether gossip that is configured so knows a message by its data, whoever
/// sent it, whatever its number and whatever its topic.
pub open spec fn identifies_by_data(config: libp2p::gossipsub::Config) -> bool {
    forall|source: Option<PeerId>, data: Seq<u8>, sequence_number: Option<u64>, topic: Seq<char>|
        #[trigger] crate::outside::gossip_message_id(
            config,
            source,
            data,
            sequence_number,
            topic,
        ) == encode_utf8(id_of(data))
}

/// Messages with the same data have the same identity, whoever sent them,
/// whatever their numbers and topics, and also between two nodes' gossip.
pub proof fn lemma_same_data_same_id(
    config: libp2p::gossipsub::Config,
    source: Option<PeerId>,
    sequence_number: Option<u64>,
    topic: Seq<char>,
    other_config: libp2p::gossipsub::Config,
    other_source: Option<PeerId>,
    other_sequence_number: Option<u64>,
    other_topic: Seq<char>,
    data: Seq<u8>,
)
    requires
        identifies_by_data(config),
        identifies_by_data(other_config),
    ensures
        crate::outside::gossip_message_id(config, source, data, sequence_number, topic)
            == crate::outside::gossip_message_id(
            other_config,
            other_source,
            data,
            other_sequence_number,
            other_topic,
        ),
{
}

/// The identity of a message, read as a decimal number, is what the hasher comes
/// to on the writes that all of the message's data make.
pub proof fn lemma_id_reads_as_hash(data: Seq<u8>)
    ensures
        crate::text::number(id_of(data), 10) == DefaultHasher::spec_finish(
            crate::outside::vec_hash_writes(data, vstd::endian::endianness(), usize::BITS),
        ),
{
    crate::text::lemma_number_of_digits(data_hash(data) as nat, 10);
}

/// Messages have the same identity exactly if the hasher comes to the same on
/// all of the one's data as on all of the other's.
pub proof fn lemma_same_id_iff_whole_data_hash_alike(data: Seq<u8>, other: Seq<u8>)
    ensures
        id_of(data) == id_of(other) <==> DefaultHasher::spec_finish(
            crate::outside::vec_hash_writes(data, vstd::endian::endianness(), usize::BITS),
        ) == DefaultHasher::spec_finish(
            crate::outside::vec_hash_writes(other, vstd::endian::endianness(), usize::BITS),
        ),
{
    lemma_id_reads_as_hash(data);
    lemma_id_reads_as_hash(other);
}

/// Messages have the same identity only if their data have the same hash.
pub proof fn lemma_same_id_same_hash(data: Seq<u8>, other: Seq<u8>)
    requires
        id_of(data) == id_of(other),
    ensures
        data_hash(data) == data_hash(other),
{
    crate::text::lemma_digits_injective(data_hash(data) as nat, data_hash(other) as nat, 10);
}

/// How the node configures the gossip protocol.
pub fn gossip_config() -> (result: Result<libp2p::gossipsub::Config, NodeError>)
    ensures
        result matches Ok(config) && {
            &&& config == crate::outside::gossip_config_of(
                MESH_N,
                MESH_N_LOW,
                MESH_OUTBOUND_MIN,
                HEARTBEAT_SECS,
                ValidationMode::Strict,
            )
            &&& identifies_by_data(config)
            &&& forall|
                source: Option<PeerId>,
                data: Seq<u8>,
                sequence_number: Option<u64>,
                topic: Seq<char>,
            |
                #[trigger] crate::outside::gossip_message_id(
                    config,
                    source,
                    data,
                    sequence_number,
                    topic,
                ) == encode_utf8(
                    crate::text::decimal(
                        DefaultHasher::spec_finish(
                            crate::outside::vec_hash_writes(
                                data,
                                vstd::endian::endianness(),
                                usize::BITS,
                            ),
                        ) as nat,
                    ),
                )
        },
{
    match build_gossip_config(
        MESH_N,
        MESH_N_LOW,
        MESH_OUTBOUND_MIN,
        HEARTBEAT_SECS,
        ValidationMode::Strict,
    ) {
        Ok(config) => Ok(config),
        Err(_) => Err(NodeError::InvalidConfig),
    }
}

/// How the node configures the Kademlia protocol.
pub fn kad_config() -> (config: libp2p::kad::Config)
    ensures
        config == crate::outside::kad_config_of(KAD_PROTOCOL@),
{
    proof {
        reveal_strlit("/kad/1.0.0");
    }
    build_kad_config(KAD_PROTOCOL)
}

/// How the node configures the identify protocol, given its public key.
pub fn identify_config(key: PublicKey) -> (config: libp2p::identify::Config)
    ensures
        config == crate::outside::identify_config_of(KAD_PROTOCOL@, key, IDENTIFY_INTERVAL_SECS),
{
    build_identify_config(KAD_PROTOCOL.to_string(), key, IDENTIFY_INTERVAL_SECS)
}

} // verus!
