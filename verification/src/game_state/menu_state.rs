use vstd::prelude::*;
use crate::input::Input;

verus! {

/// What the surrounding loop must do after a menu transition: nothing,
/// open a connection to the combat server, terminate the application, or
/// report that the chosen entry is not available.
#[derive(Clone, Copy, Debug, PartialEq, Eq, Structural)]
pub enum MenuDirective {
    Idle,
    ConnectToServer,
    Terminate,
    FeatureUnavailable,
    EnterCombat,
}

/// The game's top-level menu: taking cursor input, or waiting for the
/// server to hand over the initial combat state.
#[derive(Clone, Copy, Debug, PartialEq, Eq, Structural)]
pub enum MenuState {
    AwaitingInput { cursor_position: usize },
    AwaitingCombatState,
}

impl MenuState {
    /// The menu cursor always rests on one of its three entries.
    pub open spec fn wf(self) -> bool {
        match self {
            MenuState::AwaitingInput { cursor_position } => cursor_position < 3,
            MenuState::AwaitingCombatState => true,
        }
    }

    /// What one input does to the menu: `Down` and `Up` cycle the cursor;
    /// `Select` opens a server connection on the first entry, reports the
    /// not-yet-available options menu on the second, and asks the
    /// application to terminate on the third.
    pub open spec fn spec_transform(self, input: Input) -> (MenuState, MenuDirective) {
        match self {
            MenuState::AwaitingInput { cursor_position } => match input {
                Input::Down => (
                    MenuState::AwaitingInput {
                        cursor_position: ((cursor_position + 1) as int % 3) as usize,
                    },
                    MenuDirective::Idle,
                ),
                Input::Up => (
                    MenuState::AwaitingInput {
                        cursor_position: if cursor_position == 0 {
                            2
                        } else {
                            (cursor_position - 1) as usize
                        },
                    },
                    MenuDirective::Idle,
                ),
                Input::Select => if cursor_position == 0 {
                    (MenuState::AwaitingCombatState, MenuDirective::ConnectToServer)
                } else if cursor_position == 1 {
                    (self, MenuDirective::FeatureUnavailable)
                } else {
                    (self, MenuDirective::Terminate)
                },
                _ => (self, MenuDirective::Idle),
            },
            MenuState::AwaitingCombatState => (self, MenuDirective::Idle),
        }
    }

    /// Drive the menu with one input.
    pub fn transform(self, input: Input) -> (r: (MenuState, MenuDirective))
        requires
            self.wf(),
        ensures
            r == self.spec_transform(input),
            r.0.wf(),
    {
        match self {
            MenuState::AwaitingInput { cursor_position } => match input {
                Input::Down => (
                    MenuState::AwaitingInput { cursor_position: (cursor_position + 1) % 3 },
                    MenuDirective::Idle,
                ),
                Input::Up => (
                    MenuState::AwaitingInput {
                        cursor_position: if cursor_position == 0 {
                            2
                        } else {
                            cursor_position - 1
                        },
                    },
                    MenuDirective::Idle,
                ),
                Input::Select => if cursor_position == 0 {
                    (MenuState::AwaitingCombatState, MenuDirective::ConnectToServer)
                } else if cursor_position == 1 {
                    (self, MenuDirective::FeatureUnavailable)
                } else {
                    (self, MenuDirective::Terminate)
                },
                _ => (self, MenuDirective::Idle),
            },
            MenuState::AwaitingCombatState => (self, MenuDirective::Idle),
        }
    }
}

} // verus!
