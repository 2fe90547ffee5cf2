use vstd::prelude::*;
use crate::input::Input;

pub mod combat_state;
pub mod menu_state;

use combat_state::{CombatDirective, CombatState, ServerMessage};
use menu_state::{MenuDirective, MenuState};

verus! {

/// One event driving the game's top level: a decoded player input, a
/// decoded server message, or word that the server handed over the initial
/// combat state.
#[derive(Clone, Copy, Debug, PartialEq, Eq, Structural)]
pub enum GameEvent {
    Input(Input),
    Message(ServerMessage),
    CombatStateReady,
}

/// What the surrounding loop must do after a top-level transition.
#[derive(Clone, Copy, Debug, PartialEq, Eq, Structural)]
pub enum GameDirective {
    Idle,
    ConnectToServer,
    Terminate,
    FeatureUnavailable,
    SendConfirmedEvent,
}

/// The game's top level: in the menu, or in combat.
#[derive(Clone, Copy, Debug, PartialEq, Eq, Structural)]
pub enum GameState {
    CombatState(CombatState),
    MenuState(MenuState),
}

impl GameState {
    /// Every scene keeps its cursors in range.
    pub open spec fn wf(self) -> bool {
        match self {
            GameState::CombatState(c) => c.wf(),
            GameState::MenuState(m) => m.wf(),
        }
    }

    /// What one event does at the top level: the menu takes inputs and
    /// enters combat when the server is ready; combat takes inputs and
    /// server messages; everything else changes nothing.
    pub open spec fn spec_transform(self, event: GameEvent) -> (GameState, GameDirective) {
        match self {
            GameState::MenuState(m) => match event {
                GameEvent::Input(input) => {
                    let (m2, d) = m.spec_transform(input);
                    (
                        GameState::MenuState(m2),
                        match d {
                            MenuDirective::Idle => GameDirective::Idle,
                            MenuDirective::ConnectToServer => GameDirective::ConnectToServer,
                            MenuDirective::Terminate => GameDirective::Terminate,
                            MenuDirective::FeatureUnavailable => GameDirective::FeatureUnavailable,
                            MenuDirective::EnterCombat => GameDirective::Idle,
                        },
                    )
                },
                GameEvent::CombatStateReady => match m {
                    MenuState::AwaitingCombatState => (
                        GameState::CombatState(
                            CombatState {
                                combat_state_type: combat_state::CombatStateType::Waiting,
                            },
                        ),
                        GameDirective::Idle,
                    ),
                    _ => (self, GameDirective::Idle),
                },
                _ => (self, GameDirective::Idle),
            },
            GameState::CombatState(c) => match event {
                GameEvent::Input(input) => {
                    let (c2, d) = c.spec_transform(input);
                    (
                        GameState::CombatState(c2),
                        match d {
                            CombatDirective::Idle => GameDirective::Idle,
                            CombatDirective::SendConfirmedEvent => GameDirective::SendConfirmedEvent,
                        },
                    )
                },
                GameEvent::Message(message) => (
                    GameState::CombatState(c.spec_on_message(message)),
                    GameDirective::Idle,
                ),
                _ => (self, GameDirective::Idle),
            },
        }
    }

    /// The game starts in the menu with the cursor on the first entry.
    pub fn new() -> (r: GameState)
        ensures
            r == GameState::MenuState(MenuState::AwaitingInput { cursor_position: 0usize }),
            r.wf(),
    {
        GameState::MenuState(MenuState::AwaitingInput { cursor_position: 0 })
    }

    /// Drive the game's top level with one event.
    pub fn transform(self, event: GameEvent) -> (r: (GameState, GameDirective))
        requires
            self.wf(),
        ensures
            r == self.spec_transform(event),
            r.0.wf(),
    {
        match self {
            GameState::MenuState(m) => match event {
                GameEvent::Input(input) => {
                    let (m2, d) = m.transform(input);
                    (
                        GameState::MenuState(m2),
                        match d {
                            MenuDirective::Idle => GameDirective::Idle,
                            MenuDirective::ConnectToServer => GameDirective::ConnectToServer,
                            MenuDirective::Terminate => GameDirective::Terminate,
                            MenuDirective::FeatureUnavailable => GameDirective::FeatureUnavailable,
                            MenuDirective::EnterCombat => GameDirective::Idle,
                        },
                    )
                },
                GameEvent::CombatStateReady => match m {
                    MenuState::AwaitingCombatState => (
                        GameState::CombatState(CombatState::new()),
                        GameDirective::Idle,
                    ),
                    _ => (self, GameDirective::Idle),
                },
                _ => (self, GameDirective::Idle),
            },
            GameState::CombatState(c) => match event {
                GameEvent::Input(input) => {
                    let (c2, d) = c.transform(input);
                    (
                        GameState::CombatState(c2),
                        match d {
                            CombatDirective::Idle => GameDirective::Idle,
                            CombatDirective::SendConfirmedEvent => GameDirective::SendConfirmedEvent,
                        },
                    )
                },
                GameEvent::Message(message) => (
                    GameState::CombatState(c.on_message(message)),
                    GameDirective::Idle,
                ),
                _ => (self, GameDirective::Idle),
            },
        }
    }
}

} // verus!
