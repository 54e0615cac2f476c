//! What the node's tasks and its swarm tell each other, and how a task knows
//! the reply to what it asked for.
use crate::error::{ErrorView, NodeError};
use libp2p::swarm::dial_opts::DialOpts;
use libp2p::swarm::ConnectionId;
use vstd::prelude::*;

verus! {

/// What a task asks the swarm to do.
pub enum NetworkPeerCommand {
    /// Publish data on a topic, and reply under the correlation identifier.
    GossipPublish { topic: String, data: Vec<u8>, correlation_id: usize },
    /// Dial a connection, and report on it under its connection identifier.
    Dial(DialOpts),
}

/// What a [`NetworkPeerCommand`] says, with its contents as sequences.
pub enum CommandView {
    GossipPublish { topic: Seq<char>, data: Seq<u8>, correlation_id: usize },
    Dial(DialOpts),
}

impl View for NetworkPeerCommand {
    type V = CommandView;

    open spec fn view(&self) -> CommandView {
        match self {
            NetworkPeerCommand::GossipPublish { topic, data, correlation_id } => {
                CommandView::GossipPublish {
                    topic: topic@,
                    data: data@,
                    correlation_id: *correlation_id,
                }
            },
            NetworkPeerCommand::Dial(opts) => CommandView::Dial(*opts),
        }
    }
}

/// What the swarm tells the tasks.
#[derive(Debug)]
pub enum NetworkPeerEvent {
    /// A message was received.
    GossipData(Vec<u8>),
    /// A message was not published, for a reason in the swarm's own words.
    GossipPublishError { correlation_id: usize, error: String },
    /// A message was published under this identity.
    GossipPublished { correlation_id: usize, message_id: String },
    /// A connection was established.
    ConnectionEstablished { connection_id: ConnectionId },
    /// A dialed connection failed, for a reason in the swarm's own words.
    OutgoingConnectionError { connection_id: ConnectionId, error: String },
}

/// What a [`NetworkPeerEvent`] says, with its contents as sequences.
pub enum EventView {
    GossipData(Seq<u8>),
    GossipPublishError { correlation_id: usize, error: Seq<char> },
    GossipPublished { correlation_id: usize, message_id: Seq<char> },
    ConnectionEstablished { connection_id: ConnectionId },
    OutgoingConnectionError { connection_id: ConnectionId, error: Seq<char> },
}

impl View for NetworkPeerEvent {
    type V = EventView;

    open spec fn view(&self) -> EventView {
        match self {
            NetworkPeerEvent::GossipData(data) => EventView::GossipData(data@),
            NetworkPeerEvent::GossipPublishError { correlation_id, error } => {
                EventView::GossipPublishError { correlation_id: *correlation_id, error: error@ }
            },
            NetworkPeerEvent::GossipPublished { correlation_id, message_id } => {
                EventView::GossipPublished {
                    correlation_id: *correlation_id,
                    message_id: message_id@,
                }
            },
            NetworkPeerEvent::ConnectionEstablished { connection_id } => {
                EventView::ConnectionEstablished { connection_id: *connection_id }
            },
            NetworkPeerEvent::OutgoingConnectionError { connection_id, error } => {
                EventView::OutgoingConnectionError { connection_id: *connection_id, error: error@ }
            },
        }
    }
}

impl Clone for NetworkPeerEvent {
    fn clone(&self) -> (copy: Self)
        ensures
            copy@ == self@,
            match (*self, copy) {
                (NetworkPeerEvent::GossipData(data), NetworkPeerEvent::GossipData(same)) => same@
                    == data@,
                (
                    NetworkPeerEvent::GossipPublishError { correlation_id, error },
                    NetworkPeerEvent::GossipPublishError { correlation_id: id, error: same },
                ) => id == correlation_id && same@ == error@,
                (
                    NetworkPeerEvent::GossipPublished { correlation_id, message_id },
                    NetworkPeerEvent::GossipPublished { correlation_id: id, message_id: same },
                ) => id == correlation_id && same@ == message_id@,
                (
                    NetworkPeerEvent::ConnectionEstablished { connection_id },
                    NetworkPeerEvent::ConnectionEstablished { connection_id: id },
                ) => id == connection_id,
                (
                    NetworkPeerEvent::OutgoingConnectionError { connection_id, error },
                    NetworkPeerEvent::OutgoingConnectionError { connection_id: id, error: same },
                ) => id == connection_id && same@ == error@,
                _ => false,
            },
    {
        match self {
            NetworkPeerEvent::GossipData(data) => NetworkPeerEvent::GossipData(data.clone()),
            NetworkPeerEvent::GossipPublishError { correlation_id, error } => {
                NetworkPeerEvent::GossipPublishError {
                    correlation_id: *correlation_id,
                    error: error.clone(),
                }
            },
            NetworkPeerEvent::GossipPublished { correlation_id, message_id } => {
                NetworkPeerEvent::GossipPublished {
                    correlation_id: *correlation_id,
                    message_id: message_id.clone(),
                }
            },
            NetworkPeerEvent::ConnectionEstablished { connection_id } => {
                NetworkPeerEvent::ConnectionEstablished { connection_id: *connection_id }
            },
            NetworkPeerEvent::OutgoingConnectionError { connection_id, error } => {
                NetworkPeerEvent::OutgoingConnectionError {
                    connection_id: *connection_id,
                    error: error.clone(),
                }
            },
        }
    }
}

/// What a task gets when it waits for the next event: the event, or why the
/// channel has none, in the channel's own words.
pub type Received = Result<NetworkPeerEvent, String>;

/// What a [`Received`] says.
pub type ReceivedView = Result<EventView, Seq<char>>;

/// What a [`Received`] says.
pub open spec fn received_view(received: Received) -> ReceivedView {
    match received {
        Ok(event) => Ok(event@),
        Err(reason) => Err(reason@),
    }
}

/// How a wait ends, if it ends.
pub type Verdict = Option<Result<(), ErrorView>>;

/// How a wait ends, if it ends, by its view.
pub open spec fn verdict_view(verdict: Option<Result<(), NodeError>>) -> Verdict {
    match verdict {
        Some(outcome) => Some(crate::error::outcome_view(outcome)),
        None => None,
    }
}

/// What one event means to a task that waits for the connection it dialed: the
/// connection's own success or failure ends the wait, and so does a failure of
/// the channel. Anything else does not.
pub open spec fn connection_verdict(received: ReceivedView, dialed: ConnectionId) -> Verdict {
    match received {
        Ok(EventView::ConnectionEstablished { connection_id }) if connection_id == dialed => Some(
            Ok(()),
        ),
        Ok(
            EventView::OutgoingConnectionError { connection_id, .. },
        ) if connection_id == dialed => Some(Err(ErrorView::ConnectionFailed)),
        Ok(_) => None,
        Err(reason) => Some(Err(ErrorView::Channel { reason })),
    }
}

/// What one event means to a task that waits for its message to be published:
/// a reply under its own correlation identifier ends the wait, and so does a
/// failure of the channel. Anything else does not.
pub open spec fn publish_verdict(received: ReceivedView, asked: usize) -> Verdict {
    match received {
        Ok(EventView::GossipPublished { correlation_id, .. }) if correlation_id == asked => Some(
            Ok(()),
        ),
        Ok(
            EventView::GossipPublishError { correlation_id, error },
        ) if correlation_id == asked => Some(Err(ErrorView::PublishFailed { reason: error })),
        Ok(_) => None,
        Err(reason) => Some(Err(ErrorView::Channel { reason })),
    }
}

/// How a wait ends that receives one thing after the other.
pub open spec fn wait(
    received: Seq<ReceivedView>,
    verdict: spec_fn(ReceivedView) -> Verdict,
) -> Verdict
    decreases received.len(),
{
    if received.len() == 0 {
        None
    } else {
        match verdict(received[0]) {
            Some(outcome) => Some(outcome),
            None => wait(received.drop_first(), verdict),
        }
    }
}

/// How the wait for a dialed connection ends.
pub open spec fn connection_wait(received: Seq<ReceivedView>, dialed: ConnectionId) -> Verdict {
    wait(received, |r: ReceivedView| connection_verdict(r, dialed))
}

/// How the wait for a message to be published ends.
pub open spec fn publish_wait(received: Seq<ReceivedView>, asked: usize) -> Verdict {
    wait(received, |r: ReceivedView| publish_verdict(r, asked))
}

/// Decides whether what was received ends the wait for the connection `dialed`,
/// and how.
pub fn wait_for_connection(received: &Received, dialed: ConnectionId) -> (verdict: Option<
    Result<(), NodeError>,
>)
    ensures
        verdict_view(verdict) == connection_verdict(received_view(*received), dialed),
        match *received {
            Ok(NetworkPeerEvent::ConnectionEstablished { connection_id }) => if connection_id
                == dialed {
                verdict matches Some(Ok(_))
            } else {
                verdict is None
            },
            Ok(NetworkPeerEvent::OutgoingConnectionError { connection_id, .. }) => if connection_id
                == dialed {
                verdict matches Some(Err(NodeError::ConnectionFailed))
            } else {
                verdict is None
            },
            Ok(_) => verdict is None,
            Err(reason) => verdict matches Some(Err(NodeError::Channel { reason: said })) && said@
                == reason@,
        },
{
    match received {
        Ok(NetworkPeerEvent::ConnectionEstablished { connection_id }) => {
            if *connection_id == dialed {
                Some(Ok(()))
            } else {
                None
            }
        },
        Ok(NetworkPeerEvent::OutgoingConnectionError { connection_id, .. }) => {
            if *connection_id == dialed {
                Some(Err(NodeError::ConnectionFailed))
            } else {
                None
            }
        },
        Ok(_) => None,
        Err(reason) => Some(Err(NodeError::Channel { reason: reason.clone() })),
    }
}

/// Decides whether what was received ends the wait for the message published
/// under `asked`, and how.
pub fn wait_for_publish_confirmation(received: &Received, asked: usize) -> (verdict: Option<
    Result<(), NodeError>,
>)
    ensures
        verdict_view(verdict) == publish_verdict(received_view(*received), asked),
        match *received {
            Ok(NetworkPeerEvent::GossipPublished { correlation_id, .. }) => if correlation_id
                == asked {
                verdict matches Some(Ok(_))
            } else {
                verdict is None
            },
            Ok(NetworkPeerEvent::GossipPublishError { correlation_id, error }) => if correlation_id
                == asked {
                verdict matches Some(Err(NodeError::PublishFailed { reason })) && reason@ == error@
            } else {
                verdict is None
            },
            Ok(_) => verdict is None,
            Err(reason) => verdict matches Some(Err(NodeError::Channel { reason: said })) && said@
                == reason@,
        },
{
    match received {
        Ok(NetworkPeerEvent::GossipPublished { correlation_id, .. }) => {
            if *correlation_id == asked {
                Some(Ok(()))
            } else {
                None
            }
        },
        Ok(NetworkPeerEvent::GossipPublishError { correlation_id, error }) => {
            if *correlation_id == asked {
                Some(Err(NodeError::PublishFailed { reason: error.clone() }))
            } else {
                None
            }
        },
        Ok(_) => None,
        Err(reason) => Some(Err(NodeError::Channel { reason: reason.clone() })),
    }
}

/// The numbers that tell the replies to published messages apart.
pub struct CorrelationIds {
    /// The next number.
    pub next: usize,
}

/// The number that comes after `id`: the next one, and 0 after the greatest.
pub open spec fn id_after(id: usize) -> usize {
    if id == usize::MAX {
        0
    } else {
        (id + 1) as usize
    }
}

/// The number that is handed out after `n` others, where `first` comes first.
pub open spec fn nth_id(first: usize, n: nat) -> usize
    decreases n,
{
    if n == 0 {
        first
    } else {
        id_after(nth_id(first, (n - 1) as nat))
    }
}

/// The numbers are counted on by one, and begin again with 0.
pub proof fn lemma_id_after(id: usize)
    ensures
        id_after(id) as int == (id + 1) % (usize::MAX + 1),
{
    let size = usize::MAX + 1;
    if id == usize::MAX {
        vstd::arithmetic::div_mod::lemma_mod_self_0(size);
    } else {
        vstd::arithmetic::div_mod::lemma_small_mod((id + 1) as nat, size as nat);
    }
}

impl CorrelationIds {
    /// Numbers from 1 on.
    pub fn new() -> (ids: CorrelationIds)
        ensures
            ids.next == 1,
    {
        CorrelationIds { next: 1 }
    }

    /// Hands out the next number.
    pub fn fetch(&mut self) -> (id: usize)
        ensures
            id == old(self).next,
            final(self).next == id_after(old(self).next),
            final(self).next as int == (old(self).next + 1) % (usize::MAX + 1),
    {
        proof {
            lemma_id_after(self.next);
        }
        let id = self.next;
        self.next = id.wrapping_add(1);
        id
    }
}

/// Asks for data to be published on a topic, under a new correlation
/// identifier. Also gives the identifier to wait for.
pub fn attempt_gossip_publish(ids: &mut CorrelationIds, topic: &str, data: Vec<u8>) -> (request: (
    NetworkPeerCommand,
    usize,
))
    ensures
        request.1 == old(ids).next,
        request.0@ == (CommandView::GossipPublish {
            topic: topic@,
            data: data@,
            correlation_id: request.1,
        }),
        request.0 matches NetworkPeerCommand::GossipPublish {
            topic: to,
            data: what,
            correlation_id,
        } && to@ == topic@ && what@ == data@ && correlation_id == request.1,
        final(ids).next == id_after(old(ids).next),
        final(ids).next as int == (old(ids).next + 1) % (usize::MAX + 1),
{
    let correlation_id = ids.fetch();
    (
        NetworkPeerCommand::GossipPublish { topic: topic.to_string(), data, correlation_id },
        correlation_id,
    )
}

/// The swarm's reply to a message, given the identity it was published under
/// or the reason why it was not published.
pub open spec fn reply(
    correlation_id: usize,
    published: Result<Seq<char>, Seq<char>>,
) -> EventView {
    match published {
        Ok(message_id) => EventView::GossipPublished { correlation_id, message_id },
        Err(error) => EventView::GossipPublishError { correlation_id, error },
    }
}

/// The swarm's reply to a message, given the identity it was published under
/// or the reason why it was not published.
pub fn publish_reply(correlation_id: usize, published: Result<String, String>) -> (event:
    NetworkPeerEvent)
    ensures
        event@ == reply(
            correlation_id,
            match published {
                Ok(message_id) => Ok(message_id@),
                Err(error) => Err(error@),
            },
        ),
        match published {
            Ok(message_id) => event matches NetworkPeerEvent::GossipPublished {
                correlation_id: id,
                message_id: same,
            } && id == correlation_id && same@ == message_id@,
            Err(error) => event matches NetworkPeerEvent::GossipPublishError {
                correlation_id: id,
                error: same,
            } && id == correlation_id && same@ == error@,
        },
{
    match published {
        Ok(message_id) => NetworkPeerEvent::GossipPublished { correlation_id, message_id },
        Err(error) => NetworkPeerEvent::GossipPublishError { correlation_id, error },
    }
}

/// The message that an event brings, if it brings one.
pub fn received_message(event: NetworkPeerEvent) -> (message: Option<Vec<u8>>)
    ensures
        match event@ {
            EventView::GossipData(data) => message matches Some(m) && m@ == data,
            _ => message is None,
        },
        match event {
            NetworkPeerEvent::GossipData(data) => message matches Some(m) && m@ == data@,
            _ => message is None,
        },
{
    match event {
        NetworkPeerEvent::GossipData(data) => Some(data),
        _ => None,
    }
}

/// A wait ends with the first thing received that ends it, whatever follows.
proof fn lemma_wait_ends_first(
    received: Seq<ReceivedView>,
    verdict: spec_fn(ReceivedView) -> Verdict,
    k: int,
)
    requires
        0 <= k < received.len(),
        verdict(received[k]) is Some,
        forall|i: int| 0 <= i < k ==> verdict(#[trigger] received[i]) is None,
    ensures
        wait(received, verdict) == verdict(received[k]),
    decreases k,
{
    if k > 0 {
        let rest = received.drop_first();
        lemma_wait_ends_first(rest, verdict, k - 1);
    }
}

/// A wait goes on as long as nothing was received that ends it.
proof fn lemma_wait_goes_on(
    received: Seq<ReceivedView>,
    verdict: spec_fn(ReceivedView) -> Verdict,
)
    requires
        forall|i: int| 0 <= i < received.len() ==> verdict(#[trigger] received[i]) is None,
    ensures
        wait(received, verdict) is None,
    decreases received.len(),
{
    if received.len() > 0 {
        let rest = received.drop_first();
        lemma_wait_goes_on(rest, verdict);
    }
}

/// Whether an event is about the connection `dialed`.
pub open spec fn about_connection(event: EventView, dialed: ConnectionId) -> bool {
    match event {
        EventView::ConnectionEstablished { connection_id } => connection_id == dialed,
        EventView::OutgoingConnectionError { connection_id, .. } => connection_id == dialed,
        _ => false,
    }
}

/// Whether an event is the reply to the message published under `asked`.
pub open spec fn about_message(event: EventView, asked: usize) -> bool {
    match event {
        EventView::GossipPublished { correlation_id, .. } => correlation_id == asked,
        EventView::GossipPublishError { correlation_id, .. } => correlation_id == asked,
        _ => false,
    }
}

/// A task that waits for its connection is told that it succeeded exactly when
/// that connection is established, that it failed exactly when that connection
/// fails, whatever the reason, and of a channel that fails in the channel's own
/// words. Nothing else ends the wait.
pub proof fn lemma_connection_verdict(
    event: EventView,
    connection_id: ConnectionId,
    error: Seq<char>,
    reason: Seq<char>,
    dialed: ConnectionId,
)
    ensures
        connection_verdict(Ok(EventView::ConnectionEstablished { connection_id }), dialed) == (
        if connection_id == dialed {
            Some(Ok::<(), ErrorView>(()))
        } else {
            None
        }),
        connection_verdict(
            Ok(EventView::OutgoingConnectionError { connection_id, error }),
            dialed,
        ) == (if connection_id == dialed {
            Some(Err::<(), ErrorView>(ErrorView::ConnectionFailed))
        } else {
            None
        }),
        event is GossipData || event is GossipPublished || event is GossipPublishError
            ==> connection_verdict(Ok(event), dialed) is None,
        connection_verdict(Err(reason), dialed) == Some(
            Err::<(), ErrorView>(ErrorView::Channel { reason }),
        ),
{
}

/// A task that waits for its message to be published is told that it succeeded
/// exactly when its own message is published, under whatever identity, that it
/// failed exactly when its own message is refused, with the reason, and of a
/// channel that fails in the channel's own words. Nothing else ends the wait.
pub proof fn lemma_publish_verdict(
    event: EventView,
    correlation_id: usize,
    message_id: Seq<char>,
    reason: Seq<char>,
    asked: usize,
)
    ensures
        publish_verdict(Ok(EventView::GossipPublished { correlation_id, message_id }), asked) == (
        if correlation_id == asked {
            Some(Ok::<(), ErrorView>(()))
        } else {
            None
        }),
        publish_verdict(
            Ok(EventView::GossipPublishError { correlation_id, error: reason }),
            asked,
        ) == (if correlation_id == asked {
            Some(Err::<(), ErrorView>(ErrorView::PublishFailed { reason }))
        } else {
            None
        }),
        event is GossipData || event is ConnectionEstablished || event is OutgoingConnectionError
            ==> publish_verdict(Ok(event), asked) is None,
        publish_verdict(Err(reason), asked) == Some(
            Err::<(), ErrorView>(ErrorView::Channel { reason }),
        ),
{
}

/// The reply to a message is about that message, and tells the identity that it
/// was published under or the reason why it was not.
pub proof fn lemma_reply(correlation_id: usize, told: Seq<char>)
    ensures
        reply(correlation_id, Ok(told)) == (EventView::GossipPublished {
            correlation_id,
            message_id: told,
        }),
        reply(correlation_id, Err(told)) == (EventView::GossipPublishError {
            correlation_id,
            error: told,
        }),
{
}

/// The wait for a dialed connection ends with the first event about it: with
/// success if it was established, and with a failure if it was not. Events
/// about anything else do not matter, nor does what follows.
pub proof fn lemma_connection_wait(received: Seq<ReceivedView>, dialed: ConnectionId, k: int)
    requires
        0 <= k < received.len(),
        received[k] matches Ok(event) && about_connection(event, dialed),
        forall|i: int|
            0 <= i < k ==> (#[trigger] received[i] matches Ok(event) && !about_connection(
                event,
                dialed,
            )),
    ensures
        connection_wait(received, dialed) == Some(
            if received[k]->Ok_0 is ConnectionEstablished {
                Ok(())
            } else {
                Err(ErrorView::ConnectionFailed)
            },
        ),
{
    lemma_wait_ends_first(received, |r: ReceivedView| connection_verdict(r, dialed), k);
}

/// The wait for a dialed connection goes on as long as there is no event about
/// it, and the channel does not fail.
pub proof fn lemma_connection_wait_goes_on(received: Seq<ReceivedView>, dialed: ConnectionId)
    requires
        forall|i: int|
            0 <= i < received.len() ==> (#[trigger] received[i] matches Ok(event)
                && !about_connection(event, dialed)),
    ensures
        connection_wait(received, dialed) is None,
{
    lemma_wait_goes_on(received, |r: ReceivedView| connection_verdict(r, dialed));
}

/// The wait for a message to be published ends with the first reply to it: with
/// success if it was published, and with the swarm's reason if it was not.
/// Events about anything else do not matter, nor does what follows.
pub proof fn lemma_publish_wait(received: Seq<ReceivedView>, asked: usize, k: int)
    requires
        0 <= k < received.len(),
        received[k] matches Ok(event) && about_message(event, asked),
        forall|i: int|
            0 <= i < k ==> (#[trigger] received[i] matches Ok(event) && !about_message(
                event,
                asked,
            )),
    ensures
        publish_wait(received, asked) == Some(
            match received[k]->Ok_0 {
                EventView::GossipPublishError { error, .. } => Err(
                    ErrorView::PublishFailed { reason: error },
                ),
                _ => Ok(()),
            },
        ),
{
    lemma_wait_ends_first(received, |r: ReceivedView| publish_verdict(r, asked), k);
}

/// The wait for a message to be published goes on as long as there is no reply
/// to it, and the channel does not fail.
pub proof fn lemma_publish_wait_goes_on(received: Seq<ReceivedView>, asked: usize)
    requires
        forall|i: int|
            0 <= i < received.len() ==> (#[trigger] received[i] matches Ok(event)
                && !about_message(event, asked)),
    ensures
        publish_wait(received, asked) is None,
{
    lemma_wait_goes_on(received, |r: ReceivedView| publish_verdict(r, asked));
}

/// A channel that fails ends every wait, with the channel's own words, unless
/// an event has ended it before.
pub proof fn lemma_broken_channel(
    before: Seq<ReceivedView>,
    reason: Seq<char>,
    after: Seq<ReceivedView>,
    dialed: ConnectionId,
    asked: usize,
)
    requires
        forall|i: int|
            0 <= i < before.len() ==> (#[trigger] before[i] matches Ok(event) && !about_connection(
                event,
                dialed,
            ) && !about_message(event, asked)),
    ensures
        ({
            let received = before.push(Err(reason)) + after;
            let failure = Some(Err::<(), ErrorView>(ErrorView::Channel { reason }));
            &&& connection_wait(received, dialed) == failure
            &&& publish_wait(received, asked) == failure
        }),
{
    let received = before.push(Err(reason)) + after;
    let k = before.len() as int;
    let connection = |r: ReceivedView| connection_verdict(r, dialed);
    let publish = |r: ReceivedView| publish_verdict(r, asked);
    lemma_wait_ends_first(received, connection, k);
    lemma_wait_ends_first(received, publish, k);
}

/// A reply ends the wait for the message it is about, with its own outcome, and
/// no other task's wait: neither for another message nor for a connection.
pub proof fn lemma_reply_reaches_its_task(
    correlation_id: usize,
    published: Result<Seq<char>, Seq<char>>,
    asked: usize,
    dialed: ConnectionId,
)
    ensures
        publish_verdict(Ok(reply(correlation_id, published)), asked) == (if correlation_id
            == asked {
            match published {
                Ok(_) => Some(Ok(())),
                Err(reason) => Some(Err(ErrorView::PublishFailed { reason })),
            }
        } else {
            None
        }),
        connection_verdict(Ok(reply(correlation_id, published)), dialed) is None,
{
}

/// The `n`th number is found by counting on, modulo the number of numbers.
pub proof fn lemma_nth_id(first: usize, n: nat)
    ensures
        nth_id(first, n) as int == (first + n) % (usize::MAX + 1),
    decreases n,
{
    let size = usize::MAX + 1;
    if n == 0 {
        vstd::arithmetic::div_mod::lemma_small_mod(first as nat, size as nat);
    } else {
        lemma_nth_id(first, (n - 1) as nat);
        let previous = first + (n - 1);
        vstd::arithmetic::div_mod::lemma_add_mod_noop(previous, 1, size);
        vstd::arithmetic::div_mod::lemma_small_mod(1, size as nat);
        let last = nth_id(first, (n - 1) as nat);
        if last == usize::MAX {
            vstd::arithmetic::div_mod::lemma_mod_self_0(size);
        } else {
            vstd::arithmetic::div_mod::lemma_small_mod((last + 1) as nat, size as nat);
        }
    }
}

/// No number is handed out twice until all of them have been.
pub proof fn lemma_ids_distinct(first: usize, m: nat, n: nat)
    requires
        m < n,
        n - m <= usize::MAX,
    ensures
        nth_id(first, m) != nth_id(first, n),
{
    lemma_nth_id(first, m);
    lemma_nth_id(first, n);
    let size = usize::MAX + 1;
    if nth_id(first, m) == nth_id(first, n) {
        vstd::arithmetic::div_mod::lemma_mod_equivalence(first + n, first + m, size);
        vstd::arithmetic::div_mod::lemma_small_mod((n - m) as nat, size as nat);
    }
}

/// Attempts to publish do not mistake each other's replies: what the swarm says
/// to one attempt does not end the wait of another, however late it comes.
pub proof fn lemma_late_reply_is_ignored(
    first: usize,
    m: nat,
    n: nat,
    published: Result<Seq<char>, Seq<char>>,
)
    requires
        m != n,
        m - n <= usize::MAX,
        n - m <= usize::MAX,
    ensures
        publish_verdict(Ok(reply(nth_id(first, m), published)), nth_id(first, n)) is None,
{
    if m < n {
        lemma_ids_distinct(first, m, n);
    } else {
        lemma_ids_distinct(first, n, m);
    }
}

} // verus!
