use vstd::prelude::*;
use crate::client_event::{ClientEvent, ControlEvent, NetworkEvent};
use crate::input::Input;

verus! {

/// The client's combat scene (its own state lives elsewhere).
#[derive(Clone, Copy, Debug, PartialEq, Eq, Structural)]
pub struct CombatState;

/// The client's top-level menu.
#[derive(Clone, Copy, Debug, PartialEq, Eq, Structural)]
pub enum MenuState {
    AwaitingInput { cursor_position: usize },
    ConnectingToServer,
}

/// The client's overworld scene.
#[derive(Clone, Copy, Debug, PartialEq, Eq, Structural)]
pub struct WorldState;

/// The client's top-level scene.
#[derive(Clone, Copy, Debug, PartialEq, Eq, Structural)]
pub enum ClientState {
    CombatState(CombatState),
    MenuState(MenuState),
    WorldState(WorldState),
}

impl MenuState {
    /// The menu cursor always rests on one of its three entries.
    pub open spec fn wf(self) -> bool {
        match self {
            MenuState::AwaitingInput { cursor_position } => cursor_position < 3,
            MenuState::ConnectingToServer => true,
        }
    }

    /// What one event does to the menu: the next state, the event the
    /// surrounding loop should send onward (if any), and whether the chosen
    /// entry is not available. Selecting the first entry asks for a server
    /// connection, the second is the not-yet-available options menu, the
    /// third asks the application to terminate.
    pub open spec fn spec_transform(self, event: ClientEvent) -> (ClientState, Option<ClientEvent>, bool) {
        match self {
            MenuState::AwaitingInput { cursor_position } => match event {
                ClientEvent::Input(Input::Down) => (
                    ClientState::MenuState(
                        MenuState::AwaitingInput {
                            cursor_position: ((cursor_position + 1) as int % 3) as usize,
                        },
                    ),
                    None,
                    false,
                ),
                ClientEvent::Input(Input::Up) => (
                    ClientState::MenuState(
                        MenuState::AwaitingInput {
                            cursor_position: if cursor_position == 0 {
                                2
                            } else {
                                (cursor_position - 1) as usize
                            },
                        },
                    ),
                    None,
                    false,
                ),
                ClientEvent::Input(Input::Select) => if cursor_position == 0 {
                    (
                        ClientState::MenuState(MenuState::ConnectingToServer),
                        Some(ClientEvent::NetworkEvent(NetworkEvent::Connect)),
                        false,
                    )
                } else if cursor_position == 1 {
                    (ClientState::MenuState(self), None, true)
                } else {
                    (
                        ClientState::MenuState(self),
                        Some(ClientEvent::ControlEvent(ControlEvent::Terminate)),
                        false,
                    )
                },
                _ => (ClientState::MenuState(self), None, false),
            },
            MenuState::ConnectingToServer => match event {
                ClientEvent::NetworkEvent(NetworkEvent::Connected) => (
                    ClientState::WorldState(WorldState),
                    None,
                    false,
                ),
                ClientEvent::NetworkEvent(NetworkEvent::ConnectFailed) => (
                    ClientState::MenuState(MenuState::AwaitingInput { cursor_position: 0 }),
                    None,
                    false,
                ),
                _ => (ClientState::MenuState(self), None, false),
            },
        }
    }

    /// Drive the menu with one event. The second result is an event for the
    /// surrounding loop to deliver (connect to the server, or terminate);
    /// the third reports a menu entry that is not available, instead of
    /// failing.
    pub fn transform(self, event: ClientEvent) -> (r: (ClientState, Option<ClientEvent>, bool))
        requires
            self.wf(),
        ensures
            r == self.spec_transform(event),
            r.0 matches ClientState::MenuState(m) ==> m.wf(),
    {
        match self {
            MenuState::AwaitingInput { cursor_position } => match event {
                ClientEvent::Input(Input::Down) => (
                    ClientState::MenuState(
                        MenuState::AwaitingInput { cursor_position: (cursor_position + 1) % 3 },
                    ),
                    None,
                    false,
                ),
                ClientEvent::Input(Input::Up) => (
                    ClientState::MenuState(
                        MenuState::AwaitingInput {
                            cursor_position: if cursor_position == 0 {
                                2
                            } else {
                                cursor_position - 1
                            },
                        },
                    ),
                    None,
                    false,
                ),
                ClientEvent::Input(Input::Select) => if cursor_position == 0 {
                    (
                        ClientState::MenuState(MenuState::ConnectingToServer),
                        Some(ClientEvent::NetworkEvent(NetworkEvent::Connect)),
                        false,
                    )
                } else if cursor_position == 1 {
                    (ClientState::MenuState(self), None, true)
                } else {
                    (
                        ClientState::MenuState(self),
                        Some(ClientEvent::ControlEvent(ControlEvent::Terminate)),
                        false,
                    )
                },
                _ => (ClientState::MenuState(self), None, false),
            },
            MenuState::ConnectingToServer => match event {
                ClientEvent::NetworkEvent(NetworkEvent::Connected) => (
                    ClientState::WorldState(WorldState),
                    None,
                    false,
                ),
                ClientEvent::NetworkEvent(NetworkEvent::ConnectFailed) => (
                    ClientState::MenuState(MenuState::AwaitingInput { cursor_position: 0 }),
                    None,
                    false,
                ),
                _ => (ClientState::MenuState(self), None, false),
            },
        }
    }
}

impl ClientState {
    /// Every menu scene keeps its cursor in range.
    pub open spec fn wf(self) -> bool {
        match self {
            ClientState::MenuState(m) => m.wf(),
            _ => true,
        }
    }

    /// The client starts in the menu with the cursor on the first entry.
    pub fn new() -> (r: ClientState)
        ensures
            r == ClientState::MenuState(MenuState::AwaitingInput { cursor_position: 0usize }),
            r.wf(),
    {
        ClientState::MenuState(MenuState::AwaitingInput { cursor_position: 0 })
    }

    /// Drive the client with one event: the menu reacts as
    /// `MenuState::spec_transform` says; the combat and overworld scenes
    /// ignore events at this level.
    pub fn transform(self, event: ClientEvent) -> (r: (ClientState, Option<ClientEvent>, bool))
        requires
            self.wf(),
        ensures
            self matches ClientState::MenuState(m) ==> r == m.spec_transform(event),
            self matches ClientState::CombatState(_) ==> r == (self, Option::<ClientEvent>::None, false),
            self matches ClientState::WorldState(_) ==> r == (self, Option::<ClientEvent>::None, false),
            r.0.wf(),
    {
        match self {
            ClientState::CombatState(_) => (self, None, false),
            ClientState::MenuState(menu_state) => menu_state.transform(event),
            ClientState::WorldState(_) => (self, None, false),
        }
    }
}

} // verus!
