use gossip_node::address::IpAddress;
use gossip_node::dial::{attempt_connection, listen_address, node_address};
use gossip_node::event::NetworkPeerCommand;
use libp2p::Multiaddr;

#[test]
fn node_address_is_quic_on_its_port() {
    assert_eq!(node_address("172.18.0.2"), "/ip4/172.18.0.2/udp/4001/quic-v1");
}

#[test]
fn node_listens_everywhere() {
    let address = listen_address().unwrap();
    assert_eq!(address.to_string(), "/ip4/0.0.0.0/udp/4001/quic-v1");
    assert_eq!(address.to_vec(), vec![4, 0, 0, 0, 0, 0x91, 2, 0x0f, 0xa1, 0xcd, 3]);
}

#[test]
fn dial_is_prepared() {
    let found = vec![
        IpAddress::V6 { segments: [0, 0, 0, 0, 0, 0, 0, 1] },
        IpAddress::V4 { octets: [172, 18, 0, 2] },
    ];
    let dial = attempt_connection(Ok(found)).unwrap();
    assert_eq!(dial.ip, "172.18.0.2");
    assert_eq!(dial.address, "/ip4/172.18.0.2/udp/4001/quic-v1");
    let address: Multiaddr = dial.address.parse().unwrap();
    match dial.command {
        NetworkPeerCommand::Dial(opts) => {
            assert_eq!(opts.connection_id(), dial.connection_id);
            let told = format!("{:?}", opts);
            assert!(told.contains("peer_id: None"));
            assert!(told.contains(&format!("[{:?}]", address)));
        }
        NetworkPeerCommand::GossipPublish { .. } => panic!("not a message"),
    }
}

#[test]
fn each_attempt_has_its_own_connection() {
    let found = || Ok(vec![IpAddress::V4 { octets: [172, 18, 0, 2] }]);
    let first = attempt_connection(found()).unwrap();
    let second = attempt_connection(found()).unwrap();
    assert_ne!(first.connection_id, second.connection_id);
}

#[test]
fn every_ipv4_address_can_be_dialed() {
    for octets in [[0, 0, 0, 0], [1, 20, 30, 4], [255, 255, 255, 255]] {
        let dial = attempt_connection(Ok(vec![IpAddress::V4 { octets }])).unwrap();
        assert!(dial.address.parse::<Multiaddr>().is_ok());
    }
}

#[test]
fn nothing_to_dial() {
    let found = vec![IpAddress::V6 { segments: [0, 0, 0, 0, 0, 0, 0, 1] }];
    let error = attempt_connection(Ok(found)).err().unwrap();
    assert_eq!(error.message(), "no IPv4 addresses found");
    let error = attempt_connection(Err("no such host".to_string())).err().unwrap();
    assert_eq!(error.message(), "no such host");
}
