use vstd::prelude::*;
use crate::input::Input;

verus! {

/// Events which modify the control flow of the application in some way.
#[derive(Clone, Copy, Debug, PartialEq, Eq, Structural)]
pub enum ControlEvent {
    Terminate,
}

/// Events which modify or provide information on the server/client
/// connection.
#[derive(Clone, Copy, Debug, PartialEq, Eq, Structural)]
pub enum NetworkEvent {
    Connect,
    Connected,
    ConnectFailed,
    Disconnect,
    Disconnected,
}

/// Encompasses all event variants the client state machine consumes.
#[derive(Clone, Copy, Debug, PartialEq, Eq, Structural)]
pub enum ClientEvent {
    ControlEvent(ControlEvent),
    Input(Input),
    NetworkEvent(NetworkEvent),
}

} // verus!
