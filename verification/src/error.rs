//! What can go wrong, and how it is told.
use crate::text::decimal_text;
use vstd::prelude::*;

verus! {

/// A failure of one of the node's operations.
#[derive(Debug)]
pub enum NodeError {
    /// A name lookup failed, with the resolver's own words.
    Lookup { reason: String },
    /// A name has no IPv4 address.
    NoIpv4,
    /// A name has no IPv6 address.
    NoIpv6,
    /// A text is not a multiaddress.
    InvalidAddress,
    /// A channel to or from the swarm failed, with the channel's own words.
    Channel { reason: String },
    /// A dialed connection was not established.
    ConnectionFailed,
    /// The swarm refused a message, with its own words.
    PublishFailed { reason: String },
    /// The gossip protocol's configuration was refused.
    InvalidConfig,
    /// An operation failed as often as it was allowed to.
    Exhausted { max_attempts: u32, last_error: String },
}

/// What a [`NodeError`] says, with its texts as sequences of characters.
pub enum ErrorView {
    Lookup { reason: Seq<char> },
    NoIpv4,
    NoIpv6,
    InvalidAddress,
    Channel { reason: Seq<char> },
    ConnectionFailed,
    PublishFailed { reason: Seq<char> },
    InvalidConfig,
    Exhausted { max_attempts: u32, last_error: Seq<char> },
}

impl View for NodeError {
    type V = ErrorView;

    open spec fn view(&self) -> ErrorView {
        match self {
            NodeError::Lookup { reason } => ErrorView::Lookup { reason: reason@ },
            NodeError::NoIpv4 => ErrorView::NoIpv4,
            NodeError::NoIpv6 => ErrorView::NoIpv6,
            NodeError::InvalidAddress => ErrorView::InvalidAddress,
            NodeError::Channel { reason } => ErrorView::Channel { reason: reason@ },
            NodeError::ConnectionFailed => ErrorView::ConnectionFailed,
            NodeError::PublishFailed { reason } => ErrorView::PublishFailed { reason: reason@ },
            NodeError::InvalidConfig => ErrorView::InvalidConfig,
            NodeError::Exhausted { max_attempts, last_error } => ErrorView::Exhausted {
                max_attempts: *max_attempts,
                last_error: last_error@,
            },
        }
    }
}

/// The message of an error.
pub open spec fn error_text(error: ErrorView) -> Seq<char> {
    match error {
        ErrorView::Lookup { reason } => reason,
        ErrorView::NoIpv4 => "no IPv4 addresses found"@,
        ErrorView::NoIpv6 => "no IPv6 addresses found"@,
        ErrorView::InvalidAddress => "invalid multiaddr"@,
        ErrorView::Channel { reason } => reason,
        ErrorView::ConnectionFailed => "Connection failed"@,
        ErrorView::PublishFailed { reason } => "Publishing failed "@ + reason,
        ErrorView::InvalidConfig => "invalid gossip configuration"@,
        ErrorView::Exhausted { max_attempts, last_error } => "Operation failed after "@
            + crate::text::decimal(max_attempts as nat) + " attempts. Last error: "@ + last_error,
    }
}

/// The outcome of an operation, with its error by its view.
pub open spec fn outcome_view<T>(outcome: Result<T, NodeError>) -> Result<T, ErrorView> {
    match outcome {
        Ok(value) => Ok(value),
        Err(error) => Err(error@),
    }
}

/// What others said of a failure is told in their own words: as the whole
/// message if a lookup or a channel failed, and at the end of the message if the
/// swarm refused to publish or the attempts are used up.
pub proof fn lemma_reason_is_told(reason: Seq<char>, max_attempts: u32)
    ensures
        error_text(ErrorView::Lookup { reason }) == reason,
        error_text(ErrorView::Channel { reason }) == reason,
        ({
            let text = error_text(ErrorView::PublishFailed { reason });
            let start = text.len() - reason.len();
            &&& text.take(start) == "Publishing failed "@
            &&& text.skip(start) == reason
        }),
        ({
            let text = error_text(ErrorView::Exhausted { max_attempts, last_error: reason });
            let start = text.len() - reason.len();
            &&& text.take(start) == "Operation failed after "@ + crate::text::decimal(
                max_attempts as nat,
            ) + " attempts. Last error: "@
            &&& text.skip(start) == reason
        }),
{
}

impl NodeError {
    /// The message of the error.
    pub fn message(&self) -> (text: String)
        ensures
            text@ == error_text(self@),
            match *self {
                NodeError::Lookup { reason } => text@ == reason@,
                NodeError::NoIpv4 => text@ == "no IPv4 addresses found"@,
                NodeError::NoIpv6 => text@ == "no IPv6 addresses found"@,
                NodeError::InvalidAddress => text@ == "invalid multiaddr"@,
                NodeError::Channel { reason } => text@ == reason@,
                NodeError::ConnectionFailed => text@ == "Connection failed"@,
                NodeError::PublishFailed { reason } => text@ == "Publishing failed "@ + reason@,
                NodeError::InvalidConfig => text@ == "invalid gossip configuration"@,
                NodeError::Exhausted { max_attempts, last_error } => text@
                    == "Operation failed after "@ + crate::text::decimal(max_attempts as nat)
                    + " attempts. Last error: "@ + last_error@,
            },
    {
        match self {
            NodeError::Lookup { reason } => reason.clone(),
            NodeError::NoIpv4 => "no IPv4 addresses found".to_string(),
            NodeError::NoIpv6 => "no IPv6 addresses found".to_string(),
            NodeError::InvalidAddress => "invalid multiaddr".to_string(),
            NodeError::Channel { reason } => reason.clone(),
            NodeError::ConnectionFailed => "Connection failed".to_string(),
            NodeError::PublishFailed { reason } => {
                let mut text = "Publishing failed ".to_string();
                text.append(reason.as_str());
                text
            },
            NodeError::InvalidConfig => "invalid gossip configuration".to_string(),
            NodeError::Exhausted { max_attempts, last_error } => {
                let mut text = "Operation failed after ".to_string();
                text.append(decimal_text(*max_attempts as u64).as_str());
                text.append(" attempts. Last error: ");
                text.append(last_error.as_str());
                text
            },
        }
    }
}

} // verus!
