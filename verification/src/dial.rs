//! From a name's addresses to a connection to dial.
use crate::address::{format_ipv4, resolve_ipv4, Lookup};
use crate::error::NodeError;
use crate::event::{CommandView, NetworkPeerCommand};
use crate::outside::parse_multiaddr;
use crate::text::decimal_text;
use libp2p::swarm::dial_opts::DialOpts;
use libp2p::swarm::ConnectionId;
use libp2p::Multiaddr;
use vstd::prelude::*;

verus! {

/// The UDP port that every node listens on.
pub const NODE_PORT: u16 = 4001;

/// The multiaddress text of a QUIC endpoint at an IPv4 address.
pub open spec fn quic_text(octets: Seq<u8>, port: u16) -> Seq<char>
    recommends
        octets.len() == 4,
{
    "/ip4/"@ + crate::address::ipv4_text(octets) + "/udp/"@ + crate::text::decimal(port as nat)
        + "/quic-v1"@
}

/// The multiaddress text of a node at the IPv4 address with the text `ip`.
pub open spec fn node_text(ip: Seq<char>) -> Seq<char> {
    "/ip4/"@ + ip + "/udp/"@ + crate::text::decimal(NODE_PORT as nat) + "/quic-v1"@
}

/// The multiaddress text of a node at the IPv4 address with the text `ip`.
pub fn node_address(ip: &str) -> (text: String)
    ensures
        text@ == node_text(ip@),
        text@ == "/ip4/"@ + ip@ + "/udp/4001/quic-v1"@,
{
    proof {
        lemma_node_text(ip@);
    }
    let mut text = "/ip4/".to_string();
    text.append(ip);
    text.append("/udp/");
    text.append(decimal_text(NODE_PORT as u64).as_str());
    text.append("/quic-v1");
    text
}

/// A connection that is ready to be dialed.
pub struct PreparedDial {
    /// The text of the peer's IPv4 address.
    pub ip: String,
    /// The text of the peer's multiaddress.
    pub address: String,
    /// What to ask the swarm for.
    pub command: NetworkPeerCommand,
    /// The connection that the swarm's reply will be about.
    pub connection_id: ConnectionId,
}

/// Prepares to dial the first IPv4 address that the lookup of a name gave.
pub fn attempt_connection(lookup: Lookup) -> (result: Result<PreparedDial, NodeError>)
    ensures
        match crate::address::ipv4_resolution(lookup) {
            Err(error) => result matches Err(e) && e@ == error,
            Ok(ip) => {
                &&& result matches Ok(dial)
                &&& dial.ip@ == ip
                &&& dial.address@ == "/ip4/"@ + dial.ip@ + "/udp/4001/quic-v1"@
                &&& dial.address@ == node_text(ip)
                &&& crate::outside::multiaddr_of(node_text(ip)) matches Some(address)
                &&& dial.command@ matches CommandView::Dial(opts)
                &&& crate::outside::dial_addresses(opts) == seq![address]
                &&& crate::outside::dial_peer(opts) is None
                &&& crate::outside::dial_connection(opts) == dial.connection_id
            },
        },
        match result {
            Ok(dial) => {
                &&& lookup matches Ok(addresses)
                &&& exists|i: int|
                    {
                        &&& 0 <= i < addresses@.len()
                        &&& #[trigger] addresses@[i] is V4
                        &&& dial.ip@ == crate::address::ipv4_text(addresses@[i]->octets@)
                        &&& dial.address@ == quic_text(addresses@[i]->octets@, NODE_PORT)
                        &&& forall|j: int| 0 <= j < i ==> #[trigger] addresses@[j] is V6
                    }
                &&& dial.command matches NetworkPeerCommand::Dial(opts)
                &&& crate::outside::multiaddr_of(dial.address@) matches Some(address)
                &&& crate::outside::dial_addresses(opts) == seq![address]
                &&& crate::outside::dial_peer(opts) is None
                &&& crate::outside::dial_connection(opts) == dial.connection_id
            },
            Err(NodeError::NoIpv4) => lookup matches Ok(addresses) && forall|i: int|
                0 <= i < addresses@.len() ==> #[trigger] addresses@[i] is V6,
            Err(NodeError::Lookup { reason }) => lookup matches Err(said) && reason@ == said@,
            Err(_) => false,
        },
{
    let ip = match resolve_ipv4(lookup) {
        Ok(ip) => ip,
        Err(error) => return Err(error),
    };
    let address = node_address(ip.as_str());
    proof {
        crate::address::lemma_first_ipv4(lookup->Ok_0@);
        let octets = crate::address::first_ipv4(lookup->Ok_0@)->0;
        lemma_dialed_where_nodes_listen(octets);
    }
    match parse_multiaddr(address.as_str()) {
        Ok(multiaddr) => {
            let opts = DialOpts::from(multiaddr);
            let connection_id = opts.connection_id();
            let command = NetworkPeerCommand::Dial(opts);
            Ok(PreparedDial { ip, address, command, connection_id })
        },
        Err(_) => Err(NodeError::InvalidAddress),
    }
}

/// The multiaddress that the node listens on: every IPv4 address of the machine.
pub fn listen_address() -> (result: Result<Multiaddr, NodeError>)
    ensures
        result matches Ok(address) && crate::outside::multiaddr_of(
            quic_text(seq![0u8, 0u8, 0u8, 0u8], NODE_PORT),
        ) == Some(address),
        result matches Ok(address) && crate::outside::multiaddr_of(
            "/ip4/0.0.0.0/udp/4001/quic-v1"@,
        ) == Some(address),
{
    let octets: [u8; 4] = [0, 0, 0, 0];
    let ip = format_ipv4(&octets);
    let address = node_address(ip.as_str());
    proof {
        reveal_strlit("/ip4/");
        reveal_strlit("/udp/4001/quic-v1");
        reveal_strlit("/ip4/0.0.0.0/udp/4001/quic-v1");
        assert(address@ =~= "/ip4/0.0.0.0/udp/4001/quic-v1"@);
    }
    match parse_multiaddr(address.as_str()) {
        Ok(multiaddr) => Ok(multiaddr),
        Err(_) => Err(NodeError::InvalidAddress),
    }
}

/// A node's multiaddress names the family, the node's IP address as it was given,
/// UDP port 4001 and QUIC, whatever the IP address.
pub proof fn lemma_node_text(ip: Seq<char>)
    ensures
        node_text(ip).take(5) == "/ip4/"@,
        node_text(ip).subrange(5, 5int + ip.len()) == ip,
        node_text(ip).skip(5int + ip.len()) == "/udp/4001/quic-v1"@,
        node_text(ip) == "/ip4/"@ + ip + "/udp/4001/quic-v1"@,
{
    reveal_strlit("/ip4/");
    reveal_strlit("/udp/");
    reveal_strlit("/quic-v1");
    reveal_strlit("/udp/4001/quic-v1");
    reveal_strlit("0123456789");
    crate::text::lemma_decimal(4, 0);
    crate::text::lemma_decimal(40, 0);
    crate::text::lemma_decimal(400, 1);
}

/// The multiaddress of a QUIC endpoint names the IPv4 address in dotted decimal
/// and the UDP port in decimal.
pub proof fn lemma_quic_text_parts(octets: Seq<u8>, port: u16)
    requires
        octets.len() == 4,
    ensures
        ({
            let text = quic_text(octets, port);
            let i = 5 + crate::address::ipv4_text(octets).len() as int;
            let j = i + 5 + crate::text::decimal(port as nat).len();
            &&& text.take(5) == "/ip4/"@
            &&& text.subrange(5, i) == crate::address::ipv4_text(octets)
            &&& text.subrange(i, i + 5) == "/udp/"@
            &&& text.subrange(i + 5, j) == crate::text::decimal(port as nat)
            &&& text.skip(j) == "/quic-v1"@
        }),
{
    reveal_strlit("/ip4/");
    reveal_strlit("/udp/");
}

/// A node is dialed on the port that nodes listen on, whatever its IPv4 address:
/// what is dialed for the text of an address is the QUIC endpoint at that
/// address and port 4001.
pub proof fn lemma_dialed_where_nodes_listen(octets: Seq<u8>)
    requires
        octets.len() == 4,
    ensures
        node_text(crate::address::ipv4_text(octets)) == quic_text(octets, NODE_PORT),
        node_text(crate::address::ipv4_text(octets)) == quic_text(octets, 4001),
{
}

/// Nodes at different IPv4 addresses have different multiaddress texts.
pub proof fn lemma_quic_text_injective(a: Seq<u8>, b: Seq<u8>, port: u16)
    requires
        a.len() == 4,
        b.len() == 4,
        quic_text(a, port) == quic_text(b, port),
    ensures
        a == b,
{
    let before = "/ip4/"@;
    let after = "/udp/"@ + crate::text::decimal(port as nat) + "/quic-v1"@;
    let x = crate::address::ipv4_text(a);
    let y = crate::address::ipv4_text(b);
    assert(quic_text(b, port) =~= before + y + after);
    assert forall|i: int| 0 <= i < x.len() implies x[i] == y[i] by {
        assert((before + y + after)[before.len() + i] == y[i]);
    }
    assert(x =~= y);
    crate::address::lemma_ipv4_text_injective(a, b);
}

} // verus!
