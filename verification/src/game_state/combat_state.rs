use vstd::prelude::*;
use crate::input::Input;

verus! {

/// Which menu path the current target selection came from.
#[derive(Clone, Copy, Debug, PartialEq, Eq, Structural)]
pub enum GetTargetsType {
    Weapon,
    Skill(usize),
    Item(usize),
}

/// A message from the combat server, already decoded by the transport
/// layer; combatants are referred to by roster index.
#[derive(Clone, Copy, Debug, PartialEq, Eq, Structural)]
pub enum ServerMessage {
    CombatEvent,
    TakeTurn(usize),
    CombatStateSnapshot,
}

/// What the surrounding loop must do after a combat-menu transition.
#[derive(Clone, Copy, Debug, PartialEq, Eq, Structural)]
pub enum CombatDirective {
    Idle,
    SendConfirmedEvent,
}

/// The client-side combat menu protocol: waiting for the server, choosing
/// an action for the combatant whose turn it is, drilling into skills,
/// items or targets, then confirming.
#[derive(Clone, Copy, Debug, PartialEq, Eq, Structural)]
pub enum CombatStateType {
    Waiting,
    GetAction { target: usize, action_index: usize },
    GetSkill { skill_index: usize },
    GetItem { item_index: usize },
    GetTargets { get_targets_type: GetTargetsType },
    Confirm,
}

/// The client's view of a combat in progress: the synchronized combat
/// state itself lives with the engine; this is the menu protocol around
/// it.
#[derive(Clone, Copy, Debug, PartialEq, Eq, Structural)]
pub struct CombatState {
    pub combat_state_type: CombatStateType,
}

impl CombatState {
    /// The action cursor always rests on one of the four menu entries
    /// (weapon, skill, item, skip turn).
    pub open spec fn wf(self) -> bool {
        match self.combat_state_type {
            CombatStateType::GetAction { target, action_index } => action_index < 4,
            _ => true,
        }
    }

    /// A fresh combat scene waits for the server.
    pub fn new() -> (r: Self)
        ensures
            r.combat_state_type == CombatStateType::Waiting,
            r.wf(),
    {
        CombatState { combat_state_type: CombatStateType::Waiting }
    }

    /// What a server message does while waiting: `TakeTurn` opens the
    /// action menu for the named combatant; everything else leaves the
    /// scene waiting. Outside the waiting phase messages change nothing.
    pub open spec fn spec_on_message(self, message: ServerMessage) -> CombatState {
        match self.combat_state_type {
            CombatStateType::Waiting => match message {
                ServerMessage::TakeTurn(target) => CombatState {
                    combat_state_type: CombatStateType::GetAction { target, action_index: 0 },
                },
                _ => self,
            },
            _ => self,
        }
    }

    /// Consume one decoded server message.
    pub fn on_message(self, message: ServerMessage) -> (r: Self)
        requires
            self.wf(),
        ensures
            r == self.spec_on_message(message),
            r.wf(),
    {
        match self.combat_state_type {
            CombatStateType::Waiting => match message {
                ServerMessage::TakeTurn(target) => CombatState {
                    combat_state_type: CombatStateType::GetAction { target, action_index: 0 },
                },
                _ => self,
            },
            _ => self,
        }
    }

    /// What one input does to the combat menu: in the action menu, `Down`
    /// and `Up` cycle over the four entries and `Select` opens the chosen
    /// path (the fourth entry skips the turn); in the confirm phase,
    /// `Select` sends the confirmed event and returns to waiting.
    pub open spec fn spec_transform(self, input: Input) -> (CombatState, CombatDirective) {
        match self.combat_state_type {
            CombatStateType::GetAction { target, action_index } => match input {
                Input::Down => (
                    CombatState {
                        combat_state_type: CombatStateType::GetAction {
                            target,
                            action_index: ((action_index + 1) as int % 4) as usize,
                        },
                    },
                    CombatDirective::Idle,
                ),
                Input::Up => (
                    CombatState {
                        combat_state_type: CombatStateType::GetAction {
                            target,
                            action_index: if action_index == 0 {
                                3
                            } else {
                                (action_index - 1) as usize
                            },
                        },
                    },
                    CombatDirective::Idle,
                ),
                Input::Select => if action_index == 0 {
                    (
                        CombatState {
                            combat_state_type: CombatStateType::GetTargets {
                                get_targets_type: GetTargetsType::Weapon,
                            },
                        },
                        CombatDirective::Idle,
                    )
                } else if action_index == 1 {
                    (
                        CombatState { combat_state_type: CombatStateType::GetSkill { skill_index: 0 } },
                        CombatDirective::Idle,
                    )
                } else if action_index == 2 {
                    (
                        CombatState { combat_state_type: CombatStateType::GetItem { item_index: 0 } },
                        CombatDirective::Idle,
                    )
                } else {
                    (self, CombatDirective::Idle)
                },
                _ => (self, CombatDirective::Idle),
            },
            CombatStateType::Confirm => match input {
                Input::Select => (
                    CombatState { combat_state_type: CombatStateType::Waiting },
                    CombatDirective::SendConfirmedEvent,
                ),
                _ => (self, CombatDirective::Idle),
            },
            _ => (self, CombatDirective::Idle),
        }
    }

    /// Drive the combat menu with one input.
    pub fn transform(self, input: Input) -> (r: (Self, CombatDirective))
        requires
            self.wf(),
        ensures
            r == self.spec_transform(input),
            r.0.wf(),
    {
        match self.combat_state_type {
            CombatStateType::GetAction { target, action_index } => {
                match input {
                    Input::Down => (
                        CombatState {
                            combat_state_type: CombatStateType::GetAction {
                                target,
                                action_index: (action_index + 1) % 4,
                            },
                        },
                        CombatDirective::Idle,
                    ),
                    Input::Up => (
                        CombatState {
                            combat_state_type: CombatStateType::GetAction {
                                target,
                                action_index: if action_index == 0 {
                                    3
                                } else {
                                    action_index - 1
                                },
                            },
                        },
                        CombatDirective::Idle,
                    ),
                    Input::Select => if action_index == 0 {
                        (
                            CombatState {
                                combat_state_type: CombatStateType::GetTargets {
                                    get_targets_type: GetTargetsType::Weapon,
                                },
                            },
                            CombatDirective::Idle,
                        )
                    } else if action_index == 1 {
                        (
                            CombatState {
                                combat_state_type: CombatStateType::GetSkill { skill_index: 0 },
                            },
                            CombatDirective::Idle,
                        )
                    } else if action_index == 2 {
                        (
                            CombatState {
                                combat_state_type: CombatStateType::GetItem { item_index: 0 },
                            },
                            CombatDirective::Idle,
                        )
                    } else {
                        (self, CombatDirective::Idle)
                    },
                    _ => (self, CombatDirective::Idle),
                }
            },
            CombatStateType::Confirm => match input {
                Input::Select => (
                    CombatState { combat_state_type: CombatStateType::Waiting },
                    CombatDirective::SendConfirmedEvent,
                ),
                _ => (self, CombatDirective::Idle),
            },
            _ => (self, CombatDirective::Idle),
        }
    }
}

} // verus!
