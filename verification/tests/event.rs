use gossip_node::error::NodeError;
use gossip_node::event::{
    attempt_gossip_publish, publish_reply, received_message, wait_for_connection,
    wait_for_publish_confirmation, CorrelationIds, NetworkPeerCommand, NetworkPeerEvent, Received,
};
use libp2p::swarm::ConnectionId;

fn id(n: usize) -> ConnectionId {
    ConnectionId::new_unchecked(n)
}

fn established(n: usize) -> Received {
    Ok(NetworkPeerEvent::ConnectionEstablished { connection_id: id(n) })
}

fn dial_error(n: usize) -> Received {
    Ok(NetworkPeerEvent::OutgoingConnectionError {
        connection_id: id(n),
        error: "refused".to_string(),
    })
}

#[test]
fn own_connection_ends_the_wait() {
    assert!(matches!(wait_for_connection(&established(7), id(7)), Some(Ok(()))));
}

#[test]
fn own_dial_error_ends_the_wait() {
    let error = wait_for_connection(&dial_error(7), id(7)).unwrap().unwrap_err();
    assert!(matches!(error, NodeError::ConnectionFailed));
    assert_eq!(error.message(), "Connection failed");
}

#[test]
fn other_connections_are_ignored() {
    assert!(wait_for_connection(&established(8), id(7)).is_none());
    assert!(wait_for_connection(&dial_error(8), id(7)).is_none());
    let data: Received = Ok(NetworkPeerEvent::GossipData(vec![7]));
    assert!(wait_for_connection(&data, id(7)).is_none());
    let reply: Received = Ok(publish_reply(7, Ok("m".to_string())));
    assert!(wait_for_connection(&reply, id(7)).is_none());
}

#[test]
fn broken_channel_ends_every_wait() {
    let broken: Received = Err("channel closed".to_string());
    let error = wait_for_connection(&broken, id(7)).unwrap().unwrap_err();
    assert_eq!(error.message(), "channel closed");
    let error = wait_for_publish_confirmation(&broken, 7).unwrap().unwrap_err();
    assert_eq!(error.message(), "channel closed");
}

#[test]
fn own_confirmation_ends_the_wait() {
    let reply: Received = Ok(publish_reply(3, Ok("m".to_string())));
    assert!(matches!(wait_for_publish_confirmation(&reply, 3), Some(Ok(()))));
}

#[test]
fn own_refusal_ends_the_wait() {
    let reply: Received = Ok(publish_reply(3, Err("InsufficientPeers".to_string())));
    let error = wait_for_publish_confirmation(&reply, 3).unwrap().unwrap_err();
    assert_eq!(error.message(), "Publishing failed InsufficientPeers");
}

#[test]
fn other_replies_are_ignored() {
    let reply: Received = Ok(publish_reply(4, Ok("m".to_string())));
    assert!(wait_for_publish_confirmation(&reply, 3).is_none());
    let reply: Received = Ok(publish_reply(4, Err("Duplicate".to_string())));
    assert!(wait_for_publish_confirmation(&reply, 3).is_none());
    assert!(wait_for_publish_confirmation(&established(3), 3).is_none());
    assert!(wait_for_publish_confirmation(&dial_error(3), 3).is_none());
    let data: Received = Ok(NetworkPeerEvent::GossipData(vec![3]));
    assert!(wait_for_publish_confirmation(&data, 3).is_none());
}

#[test]
fn wait_ends_with_the_first_verdict() {
    let received = vec![established(1), dial_error(2), established(7), dial_error(7)];
    let verdict = received.iter().find_map(|r| wait_for_connection(r, id(7)));
    assert!(matches!(verdict, Some(Ok(()))));
}

#[test]
fn correlation_ids_count_from_one() {
    let mut ids = CorrelationIds::new();
    assert_eq!(ids.fetch(), 1);
    assert_eq!(ids.fetch(), 2);
    assert_eq!(ids.fetch(), 3);
}

#[test]
fn correlation_ids_wrap_around() {
    let mut ids = CorrelationIds { next: usize::MAX };
    assert_eq!(ids.fetch(), usize::MAX);
    assert_eq!(ids.fetch(), 0);
}

#[test]
fn published_message_is_asked_for_under_a_new_id() {
    let mut ids = CorrelationIds::new();
    let (command, first) = attempt_gossip_publish(&mut ids, "some_topic", vec![1, 2, 3, 4]);
    match command {
        NetworkPeerCommand::GossipPublish { topic, data, correlation_id } => {
            assert_eq!(topic, "some_topic");
            assert_eq!(data, vec![1, 2, 3, 4]);
            assert_eq!(correlation_id, first);
        }
        NetworkPeerCommand::Dial(_) => panic!("not a dial"),
    }
    let (_, second) = attempt_gossip_publish(&mut ids, "some_topic", Vec::new());
    assert_eq!((first, second), (1, 2));
}

#[test]
fn only_messages_are_shown() {
    assert_eq!(received_message(NetworkPeerEvent::GossipData(vec![1, 2])), Some(vec![1, 2]));
    assert_eq!(received_message(publish_reply(1, Ok("m".to_string()))), None);
    assert_eq!(received_message(publish_reply(1, Err("e".to_string()))), None);
    assert_eq!(received_message(established(1).unwrap()), None);
    assert_eq!(received_message(dial_error(1).unwrap()), None);
}

#[test]
fn cloned_event_is_the_same() {
    let events = vec![
        NetworkPeerEvent::GossipData(vec![9, 8]),
        publish_reply(1, Ok("m".to_string())),
        publish_reply(2, Err("e".to_string())),
        established(3).unwrap(),
        dial_error(4).unwrap(),
    ];
    for event in &events {
        assert_eq!(format!("{:?}", event.clone()), format!("{:?}", event));
    }
}
