use gossip_node::error::NodeError;
use gossip_node::event::{wait_for_connection, wait_for_publish_confirmation, NetworkPeerEvent};
use gossip_node::swarm::{process_swarm_event, SwarmAction, SwarmNotice};
use libp2p::identity::Keypair;
use libp2p::swarm::ConnectionId;
use libp2p::Multiaddr;

#[test]
fn connected_peer_is_made_known_and_told() {
    let peer = Keypair::generate_ed25519().public().to_peer_id();
    let addr: Multiaddr = "/ip4/10.0.0.1/udp/4001/quic-v1".parse().unwrap();
    let id = ConnectionId::new_unchecked(5);
    let mut actions = process_swarm_event(SwarmNotice::ConnectionEstablished {
        peer_id: peer,
        remote_addr: addr.clone(),
        connection_id: id,
    });
    assert_eq!(actions.len(), 3);
    let told = match actions.pop().unwrap() {
        SwarmAction::Announce { event } => event,
        _ => panic!("not told"),
    };
    match actions.pop().unwrap() {
        SwarmAction::AddExplicitPeer { peer_id } => assert_eq!(peer_id, peer),
        _ => panic!("not made explicit"),
    }
    match actions.pop().unwrap() {
        SwarmAction::AddAddress { peer_id, address } => {
            assert_eq!(peer_id, peer);
            assert_eq!(address, addr);
        }
        _ => panic!("not added"),
    }
    let received = Ok(told);
    assert!(matches!(wait_for_connection(&received, id), Some(Ok(()))));
    assert!(wait_for_connection(&received, ConnectionId::new_unchecked(6)).is_none());
    assert!(wait_for_publish_confirmation(&received, 5).is_none());
}

#[test]
fn failed_dial_is_told() {
    let id = ConnectionId::new_unchecked(5);
    let mut actions = process_swarm_event(SwarmNotice::OutgoingConnectionError {
        connection_id: id,
        error: "Dial error: no addresses for peer.".to_string(),
    });
    assert_eq!(actions.len(), 1);
    match actions.pop().unwrap() {
        SwarmAction::Announce { event } => {
            if let NetworkPeerEvent::OutgoingConnectionError { connection_id, error } = &event {
                assert_eq!(*connection_id, id);
                assert_eq!(error, "Dial error: no addresses for peer.");
            } else {
                panic!("another event");
            }
            let verdict = wait_for_connection(&Ok(event), id);
            assert!(matches!(verdict, Some(Err(NodeError::ConnectionFailed))));
        }
        _ => panic!("not told"),
    }
}

#[test]
fn message_is_told() {
    let mut actions = process_swarm_event(SwarmNotice::GossipMessage { data: vec![1, 2, 3, 4] });
    assert_eq!(actions.len(), 1);
    match actions.pop().unwrap() {
        SwarmAction::Announce { event: NetworkPeerEvent::GossipData(data) } => {
            assert_eq!(data, vec![1, 2, 3, 4]);
        }
        _ => panic!("not told"),
    }
}

#[test]
fn nothing_is_done_about_the_rest() {
    assert!(process_swarm_event(SwarmNotice::IncomingConnectionError).is_empty());
    assert!(process_swarm_event(SwarmNotice::KademliaInboundRequest).is_empty());
    assert!(process_swarm_event(SwarmNotice::KademliaEvent).is_empty());
    assert!(process_swarm_event(SwarmNotice::NewListenAddr).is_empty());
    assert!(process_swarm_event(SwarmNotice::Other).is_empty());
}
