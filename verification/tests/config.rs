use gossip_node::config::{
    gossip_config, identify_config, kad_config, message_id, message_id_text,
};
use libp2p::gossipsub::{IdentTopic, Message, MessageId, ValidationMode};
use libp2p::identity::Keypair;
use libp2p::kad::{store::MemoryStore, Behaviour};
use std::hash::{DefaultHasher, Hash, Hasher};
use std::time::Duration;

#[test]
fn gossip_is_configured() {
    let config = gossip_config().unwrap();
    assert_eq!(config.mesh_n(), 3);
    assert_eq!(config.mesh_n_low(), 2);
    assert_eq!(config.mesh_outbound_min(), 1);
    assert_eq!(config.heartbeat_interval(), Duration::from_secs(1));
    assert!(matches!(config.validation_mode(), ValidationMode::Strict));
}

#[test]
fn messages_are_known_by_their_data() {
    let config = gossip_config().unwrap();
    let peer = Keypair::generate_ed25519().public().to_peer_id();
    let message = |data: Vec<u8>| Message {
        source: None,
        data,
        sequence_number: Some(1),
        topic: IdentTopic::new("some_topic").hash(),
    };
    let id = config.message_id(&message(vec![1, 2, 3, 4]));
    let alike = Message {
        source: Some(peer),
        data: vec![1, 2, 3, 4],
        sequence_number: None,
        topic: IdentTopic::new("another_topic").hash(),
    };
    assert_eq!(id, config.message_id(&alike));
    assert_eq!(id, gossip_config().unwrap().message_id(&alike));
    assert_ne!(id, config.message_id(&message(vec![1, 2, 3, 5])));
    assert_eq!(id, MessageId::from(message_id(&vec![1, 2, 3, 4])));
    assert_eq!(message_id(&vec![1, 2, 3, 4]), message_id(&vec![1, 2, 3, 4]));
}

#[test]
fn message_id_is_the_hash_in_decimal() {
    for data in [vec![], vec![0u8], vec![1, 2, 3, 4]] {
        let mut hasher = DefaultHasher::new();
        data.hash(&mut hasher);
        assert_eq!(message_id(&data), hasher.finish().to_string());
    }
}

#[test]
fn message_id_text_is_decimal() {
    assert_eq!(message_id_text(0), "0");
    assert_eq!(message_id_text(10), "10");
    assert_eq!(message_id_text(u64::MAX), "18446744073709551615");
    assert_ne!(message_id_text(1), message_id_text(11));
}

#[test]
fn kademlia_is_configured() {
    let peer = Keypair::generate_ed25519().public().to_peer_id();
    let behaviour = Behaviour::with_config(peer, MemoryStore::new(peer), kad_config());
    assert_eq!(behaviour.protocol_names().len(), 1);
    assert_eq!(behaviour.protocol_names()[0].as_ref(), "/kad/1.0.0");
}

#[test]
fn identification_is_configured() {
    let key = Keypair::generate_ed25519().public();
    let config = identify_config(key.clone());
    assert_eq!(config.protocol_version, "/kad/1.0.0");
    assert_eq!(config.local_public_key, key);
    assert_eq!(config.interval, Duration::from_secs(60));
}
