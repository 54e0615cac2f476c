//! What the node does about the events of its swarm.
use crate::error::ErrorView;
use crate::event::{EventView, NetworkPeerEvent};
use libp2p::swarm::ConnectionId;
use libp2p::{Multiaddr, PeerId};
use vstd::prelude::*;

verus! {

/// An event of the swarm, as far as the node's actions depend on it.
pub enum SwarmNotice {
    /// A connection was established, by either side.
    ConnectionEstablished { peer_id: PeerId, remote_addr: Multiaddr, connection_id: ConnectionId },
    /// A dialed connection failed, for a reason in the swarm's own words.
    OutgoingConnectionError { connection_id: ConnectionId, error: String },
    /// A connection that a peer dialed failed.
    IncomingConnectionError,
    /// A peer sent a Kademlia request.
    KademliaInboundRequest,
    /// Something else happened in Kademlia.
    KademliaEvent,
    /// A gossip message was received.
    GossipMessage { data: Vec<u8> },
    /// The node has begun to listen on an address.
    NewListenAddr,
    /// Something else happened.
    Other,
}

/// What a [`SwarmNotice`] says, with its contents as sequences.
pub enum NoticeView {
    ConnectionEstablished { peer_id: PeerId, remote_addr: Multiaddr, connection_id: ConnectionId },
    OutgoingConnectionError { connection_id: ConnectionId, error: Seq<char> },
    IncomingConnectionError,
    KademliaInboundRequest,
    KademliaEvent,
    GossipMessage { data: Seq<u8> },
    NewListenAddr,
    Other,
}

impl View for SwarmNotice {
    type V = NoticeView;

    open spec fn view(&self) -> NoticeView {
        match self {
            SwarmNotice::ConnectionEstablished { peer_id, remote_addr, connection_id } => {
                NoticeView::ConnectionEstablished {
                    peer_id: *peer_id,
                    remote_addr: *remote_addr,
                    connection_id: *connection_id,
                }
            },
            SwarmNotice::OutgoingConnectionError { connection_id, error } => {
                NoticeView::OutgoingConnectionError { connection_id: *connection_id, error: error@ }
            },
            SwarmNotice::IncomingConnectionError => NoticeView::IncomingConnectionError,
            SwarmNotice::KademliaInboundRequest => NoticeView::KademliaInboundRequest,
            SwarmNotice::KademliaEvent => NoticeView::KademliaEvent,
            SwarmNotice::GossipMessage { data } => NoticeView::GossipMessage { data: data@ },
            SwarmNotice::NewListenAddr => NoticeView::NewListenAddr,
            SwarmNotice::Other => NoticeView::Other,
        }
    }
}

/// Something that the node does about an event of the swarm.
pub enum SwarmAction {
    /// Make an address of a peer known to Kademlia.
    AddAddress { peer_id: PeerId, address: Multiaddr },
    /// Make a peer one that gossip always goes to.
    AddExplicitPeer { peer_id: PeerId },
    /// Tell the node's tasks.
    Announce { event: NetworkPeerEvent },
}

/// What a [`SwarmAction`] says, with its contents as sequences.
pub enum ActionView {
    AddAddress { peer_id: PeerId, address: Multiaddr },
    AddExplicitPeer { peer_id: PeerId },
    Announce { event: EventView },
}

impl View for SwarmAction {
    type V = ActionView;

    open spec fn view(&self) -> ActionView {
        match self {
            SwarmAction::AddAddress { peer_id, address } => ActionView::AddAddress {
                peer_id: *peer_id,
                address: *address,
            },
            SwarmAction::AddExplicitPeer { peer_id } => ActionView::AddExplicitPeer {
                peer_id: *peer_id,
            },
            SwarmAction::Announce { event } => ActionView::Announce { event: event@ },
        }
    }
}

/// What the node does about an event of the swarm, in this order: a peer that
/// it is connected to is made known to Kademlia and to gossip, and the tasks
/// are told of connections, of failed dials and of messages.
pub open spec fn swarm_actions(notice: NoticeView) -> Seq<ActionView> {
    match notice {
        NoticeView::ConnectionEstablished { peer_id, remote_addr, connection_id } => seq![
            ActionView::AddAddress { peer_id, address: remote_addr },
            ActionView::AddExplicitPeer { peer_id },
            ActionView::Announce { event: EventView::ConnectionEstablished { connection_id } },
        ],
        NoticeView::OutgoingConnectionError { connection_id, error } => seq![
            ActionView::Announce {
                event: EventView::OutgoingConnectionError { connection_id, error },
            },
        ],
        NoticeView::GossipMessage { data } => seq![
            ActionView::Announce { event: EventView::GossipData(data) },
        ],
        _ => Seq::empty(),
    }
}

/// Actions by their views.
pub open spec fn action_views(actions: Seq<SwarmAction>) -> Seq<ActionView> {
    actions.map_values(|action: SwarmAction| action@)
}

/// Decides what to do about an event of the swarm, and in what order.
pub fn process_swarm_event(notice: SwarmNotice) -> (actions: Vec<SwarmAction>)
    ensures
        action_views(actions@) == swarm_actions(notice@),
        match notice {
            SwarmNotice::ConnectionEstablished { peer_id, remote_addr, connection_id } => {
                &&& actions@.len() == 3
                &&& actions@[0] == (SwarmAction::AddAddress { peer_id, address: remote_addr })
                &&& actions@[1] == (SwarmAction::AddExplicitPeer { peer_id })
                &&& actions@[2] matches SwarmAction::Announce { event }
                &&& event == (NetworkPeerEvent::ConnectionEstablished { connection_id })
            },
            SwarmNotice::OutgoingConnectionError { connection_id, error } => {
                &&& actions@.len() == 1
                &&& actions@[0] matches SwarmAction::Announce { event }
                &&& event == (NetworkPeerEvent::OutgoingConnectionError { connection_id, error })
            },
            SwarmNotice::GossipMessage { data } => {
                &&& actions@.len() == 1
                &&& actions@[0] matches SwarmAction::Announce { event }
                &&& event == NetworkPeerEvent::GossipData(data)
            },
            _ => actions@.len() == 0,
        },
{
    let mut actions: Vec<SwarmAction> = Vec::new();
    match notice {
        SwarmNotice::ConnectionEstablished { peer_id, remote_addr, connection_id } => {
            actions.push(SwarmAction::AddAddress { peer_id, address: remote_addr });
            actions.push(SwarmAction::AddExplicitPeer { peer_id });
            actions.push(
                SwarmAction::Announce {
                    event: NetworkPeerEvent::ConnectionEstablished { connection_id },
                },
            );
        },
        SwarmNotice::OutgoingConnectionError { connection_id, error } => {
            actions.push(
                SwarmAction::Announce {
                    event: NetworkPeerEvent::OutgoingConnectionError { connection_id, error },
                },
            );
        },
        SwarmNotice::IncomingConnectionError => {},
        SwarmNotice::KademliaInboundRequest => {},
        SwarmNotice::KademliaEvent => {},
        SwarmNotice::GossipMessage { data } => {
            actions.push(SwarmAction::Announce { event: NetworkPeerEvent::GossipData(data) });
        },
        SwarmNotice::NewListenAddr => {},
        SwarmNotice::Other => {},
    }
    actions
}

/// A peer's address is made known to Kademlia exactly when a connection to that
/// peer at that address is established, and a peer is made one that gossip
/// always goes to exactly when a connection to it is established.
pub proof fn lemma_connected_peers_are_made_known(
    notice: NoticeView,
    peer_id: PeerId,
    address: Multiaddr,
)
    ensures
        swarm_actions(notice).contains(ActionView::AddAddress { peer_id, address }) <==> (
        notice matches NoticeView::ConnectionEstablished { peer_id: peer, remote_addr, .. } && peer
            == peer_id && remote_addr == address),
        swarm_actions(notice).contains(ActionView::AddExplicitPeer { peer_id }) <==> (
        notice matches NoticeView::ConnectionEstablished { peer_id: peer, .. } && peer == peer_id),
        swarm_actions(notice).no_duplicates(),
{
    if let NoticeView::ConnectionEstablished { peer_id: peer, remote_addr, .. } = notice {
        let actions = swarm_actions(notice);
        assert(actions[0] == (ActionView::AddAddress { peer_id: peer, address: remote_addr }));
        assert(actions[1] == (ActionView::AddExplicitPeer { peer_id: peer }));
    }
}

/// The tasks are told of every connection that is established, of every dialed
/// connection that fails and of every message that is received, of each with
/// what the swarm said of it, and of nothing else.
pub proof fn lemma_tasks_are_told(notice: NoticeView, event: EventView)
    ensures
        swarm_actions(notice).contains(ActionView::Announce { event }) <==> match event {
            EventView::ConnectionEstablished { connection_id } => {
                &&& notice matches NoticeView::ConnectionEstablished { connection_id: id, .. }
                &&& id == connection_id
            },
            EventView::OutgoingConnectionError { connection_id, error } => notice == (
            NoticeView::OutgoingConnectionError { connection_id, error }),
            EventView::GossipData(data) => notice == (NoticeView::GossipMessage { data }),
            _ => false,
        },
{
    let actions = swarm_actions(notice);
    if let NoticeView::ConnectionEstablished { connection_id, .. } = notice {
        let told = EventView::ConnectionEstablished { connection_id };
        assert(actions[2] == (ActionView::Announce { event: told }));
    } else if actions.len() > 0 {
        assert(actions[0] is Announce);
    }
}

/// A peer that the node is connected to is made known to Kademlia first, then to
/// gossip, and only then are the tasks told.
pub proof fn lemma_made_known_before_told(
    peer_id: PeerId,
    remote_addr: Multiaddr,
    connection_id: ConnectionId,
)
    ensures
        ({
            let actions = swarm_actions(
                NoticeView::ConnectionEstablished { peer_id, remote_addr, connection_id },
            );
            &&& actions.len() == 3
            &&& actions[0] is AddAddress
            &&& actions[1] is AddExplicitPeer
            &&& actions[2] is Announce
        }),
{
}

/// The tasks are told at most one thing of an event, and last: what is done
/// about the event besides has been done by then.
pub proof fn lemma_announced_last(notice: NoticeView, i: int)
    requires
        0 <= i < swarm_actions(notice).len(),
        swarm_actions(notice)[i] is Announce,
    ensures
        i == swarm_actions(notice).len() - 1,
{
}

/// A connection that is established ends the wait of the task that dialed it,
/// with success, and no other wait: neither for another connection nor for a
/// message.
pub proof fn lemma_connection_reaches_its_task(
    peer_id: PeerId,
    remote_addr: Multiaddr,
    connection_id: ConnectionId,
    dialed: ConnectionId,
    asked: usize,
)
    ensures
        ({
            let notice = NoticeView::ConnectionEstablished { peer_id, remote_addr, connection_id };
            let told = swarm_actions(notice).last()->event;
            &&& swarm_actions(notice).last() is Announce
            &&& crate::event::connection_verdict(Ok(told), dialed) == (if connection_id == dialed {
                Some(Ok::<(), ErrorView>(()))
            } else {
                None
            })
            &&& crate::event::publish_verdict(Ok(told), asked) is None
        }),
{
}

/// A dialed connection that fails ends the wait of the task that dialed it,
/// with a failure, and no other wait.
pub proof fn lemma_dial_failure_reaches_its_task(
    connection_id: ConnectionId,
    error: Seq<char>,
    dialed: ConnectionId,
    asked: usize,
)
    ensures
        ({
            let notice = NoticeView::OutgoingConnectionError { connection_id, error };
            let told = swarm_actions(notice).last()->event;
            &&& swarm_actions(notice).last() is Announce
            &&& crate::event::connection_verdict(Ok(told), dialed) == (if connection_id == dialed {
                Some(Err::<(), ErrorView>(ErrorView::ConnectionFailed))
            } else {
                None
            })
            &&& crate::event::publish_verdict(Ok(told), asked) is None
        }),
{
}

/// A message that is received is told to the tasks with its own data, and ends
/// no wait.
pub proof fn lemma_message_is_told(data: Seq<u8>, dialed: ConnectionId, asked: usize)
    ensures
        ({
            let told = EventView::GossipData(data);
            &&& swarm_actions(NoticeView::GossipMessage { data }) == seq![
                ActionView::Announce { event: told },
            ]
            &&& crate::event::connection_verdict(Ok(told), dialed) is None
            &&& crate::event::publish_verdict(Ok(told), asked) is None
        }),
{
}

} // verus!
