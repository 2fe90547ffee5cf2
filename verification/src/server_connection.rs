use vstd::prelude::*;
use crate::client_event::NetworkEvent;

verus! {

/// What one poll of the pending connection attempt reported.
#[derive(Clone, Copy, Debug, PartialEq, Eq, Structural)]
pub enum ConnectOutcome {
    Success,
    Failure,
}

/// The connection to the combat server, as the client tracks it. The
/// socket itself lives with the transport layer; this is the decision core
/// that turns poll outcomes into state changes and events.
#[derive(Clone, Copy, Debug, PartialEq, Eq, Structural)]
pub enum ServerConnection {
    Connecting,
    Connected,
    ConnectionFailed,
}

impl ServerConnection {
    /// What one poll outcome does to the connection: the next state and the
    /// network event to announce, if any.
    pub open spec fn spec_update(self, poll: Option<ConnectOutcome>) -> (ServerConnection, Option<
        NetworkEvent,
    >) {
        match self {
            ServerConnection::Connecting => match poll {
                Some(ConnectOutcome::Success) => (
                    ServerConnection::Connected,
                    Some(NetworkEvent::Connected),
                ),
                Some(ConnectOutcome::Failure) => (
                    ServerConnection::ConnectionFailed,
                    Some(NetworkEvent::ConnectFailed),
                ),
                None => (self, None),
            },
            _ => (self, None),
        }
    }

    /// Advance the connection by one poll of the pending attempt: a
    /// successful attempt connects and announces it, a failed one records
    /// the failure and announces it, anything else changes nothing.
    pub fn update(self, poll: Option<ConnectOutcome>) -> (r: (ServerConnection, Option<NetworkEvent>))
        ensures
            r == self.spec_update(poll),
    {
        match self {
            ServerConnection::Connecting => match poll {
                Some(ConnectOutcome::Success) => (
                    ServerConnection::Connected,
                    Some(NetworkEvent::Connected),
                ),
                Some(ConnectOutcome::Failure) => (
                    ServerConnection::ConnectionFailed,
                    Some(NetworkEvent::ConnectFailed),
                ),
                None => (self, None),
            },
            ServerConnection::Connected => (self, None),
            ServerConnection::ConnectionFailed => (self, None),
        }
    }
}

} // verus!
