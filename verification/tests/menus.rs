use combat_engine::client_event::{ClientEvent, ControlEvent, NetworkEvent};
use combat_engine::client_state::{ClientState, MenuState, WorldState};
use combat_engine::game_state::combat_state::{
    CombatDirective, CombatState, CombatStateType, ServerMessage,
};
use combat_engine::game_state::menu_state::MenuDirective;
use combat_engine::game_state::{GameDirective, GameEvent, GameState};
use combat_engine::input::{GamepadButton, Input, InputState, KeyCode, RawInput};
use combat_engine::server_connection::{ConnectOutcome, ServerConnection};

#[test]
fn client_menu_cursor_cycles() {
    let state = ClientState::new();
    let (state, sent, unavailable) = state.transform(ClientEvent::Input(Input::Down));
    assert!(sent.is_none());
    assert!(!unavailable);
    assert_eq!(state, ClientState::MenuState(MenuState::AwaitingInput { cursor_position: 1 }));
    let (state, _, _) = state.transform(ClientEvent::Input(Input::Down));
    let (state, _, _) = state.transform(ClientEvent::Input(Input::Down));
    assert_eq!(state, ClientState::MenuState(MenuState::AwaitingInput { cursor_position: 0 }));
    let (state, _, _) = state.transform(ClientEvent::Input(Input::Up));
    assert_eq!(state, ClientState::MenuState(MenuState::AwaitingInput { cursor_position: 2 }));
}

#[test]
fn client_menu_connects_on_first_entry() {
    let state = ClientState::new();
    let (state, sent, unavailable) = state.transform(ClientEvent::Input(Input::Select));
    assert_eq!(state, ClientState::MenuState(MenuState::ConnectingToServer));
    assert_eq!(sent, Some(ClientEvent::NetworkEvent(NetworkEvent::Connect)));
    assert!(!unavailable);
    let (state, sent, _) = state.transform(ClientEvent::NetworkEvent(NetworkEvent::Connected));
    assert_eq!(state, ClientState::WorldState(WorldState));
    assert!(sent.is_none());
}

#[test]
fn client_menu_reports_unavailable_options_entry() {
    let state = ClientState::new();
    let (state, _, _) = state.transform(ClientEvent::Input(Input::Down));
    let (state, sent, unavailable) = state.transform(ClientEvent::Input(Input::Select));
    assert!(unavailable);
    assert!(sent.is_none());
    assert_eq!(state, ClientState::MenuState(MenuState::AwaitingInput { cursor_position: 1 }));
}

#[test]
fn client_menu_terminates_on_third_entry() {
    let state = ClientState::new();
    let (state, _, _) = state.transform(ClientEvent::Input(Input::Up));
    let (_, sent, unavailable) = state.transform(ClientEvent::Input(Input::Select));
    assert_eq!(sent, Some(ClientEvent::ControlEvent(ControlEvent::Terminate)));
    assert!(!unavailable);
}

#[test]
fn failed_connection_returns_to_the_menu() {
    let state = ClientState::new();
    let (state, _, _) = state.transform(ClientEvent::Input(Input::Select));
    let (state, sent, _) = state.transform(ClientEvent::NetworkEvent(NetworkEvent::ConnectFailed));
    assert_eq!(state, ClientState::MenuState(MenuState::AwaitingInput { cursor_position: 0 }));
    assert!(sent.is_none());
}

#[test]
fn game_menu_drives_into_combat() {
    let state = GameState::new();
    let (state, directive) = state.transform(GameEvent::Input(Input::Select));
    assert_eq!(directive, GameDirective::ConnectToServer);
    let (state, directive) = state.transform(GameEvent::CombatStateReady);
    assert_eq!(directive, GameDirective::Idle);
    assert_eq!(
        state,
        GameState::CombatState(CombatState { combat_state_type: CombatStateType::Waiting })
    );
}

#[test]
fn game_menu_options_entry_is_unavailable() {
    let state = GameState::new();
    let (state, _) = state.transform(GameEvent::Input(Input::Down));
    let (_, directive) = state.transform(GameEvent::Input(Input::Select));
    assert_eq!(directive, GameDirective::FeatureUnavailable);
}

#[test]
fn game_menu_terminates_on_third_entry() {
    let state = GameState::new();
    let (state, _) = state.transform(GameEvent::Input(Input::Up));
    let (_, directive) = state.transform(GameEvent::Input(Input::Select));
    assert_eq!(directive, GameDirective::Terminate);
}

#[test]
fn combat_menu_walks_to_confirm_and_sends() {
    let combat = CombatState::new();
    let combat = combat.on_message(ServerMessage::TakeTurn(2));
    assert_eq!(
        combat.combat_state_type,
        CombatStateType::GetAction { target: 2, action_index: 0 }
    );
    // The cursor wraps over the four entries.
    let (combat, _) = combat.transform(Input::Up);
    assert_eq!(
        combat.combat_state_type,
        CombatStateType::GetAction { target: 2, action_index: 3 }
    );
    let (combat, _) = combat.transform(Input::Down);
    // Selecting the weapon entry opens target selection; selecting from
    // Confirm sends the event and waits again.
    let (combat, directive) = combat.transform(Input::Select);
    assert_eq!(directive, CombatDirective::Idle);
    assert!(matches!(combat.combat_state_type, CombatStateType::GetTargets { .. }));
}

#[test]
fn combat_confirm_sends_the_event() {
    let combat = CombatState {
        combat_state_type: CombatStateType::Confirm,
    };
    let (combat, directive) = combat.transform(Input::Select);
    assert_eq!(directive, CombatDirective::SendConfirmedEvent);
    assert_eq!(combat.combat_state_type, CombatStateType::Waiting);
}

#[test]
fn connection_poll_outcomes_drive_the_state() {
    let (state, event) = ServerConnection::Connecting.update(None);
    assert_eq!(state, ServerConnection::Connecting);
    assert!(event.is_none());
    let (state, event) = ServerConnection::Connecting.update(Some(ConnectOutcome::Success));
    assert_eq!(state, ServerConnection::Connected);
    assert_eq!(event, Some(NetworkEvent::Connected));
    let (state, event) = ServerConnection::Connecting.update(Some(ConnectOutcome::Failure));
    assert_eq!(state, ServerConnection::ConnectionFailed);
    assert_eq!(event, Some(NetworkEvent::ConnectFailed));
    let (state, event) = ServerConnection::Connected.update(Some(ConnectOutcome::Failure));
    assert_eq!(state, ServerConnection::Connected);
    assert!(event.is_none());
}

#[test]
fn raw_inputs_map_and_queue_in_order() {
    let mut input_state = InputState::new();
    input_state.push_input_raw(RawInput::Keyboard(KeyCode::W));
    input_state.push_input_raw(RawInput::Gamepad(GamepadButton::South));
    input_state.push_input_raw(RawInput::Keyboard(KeyCode::Other));
    input_state.push_input_raw(RawInput::Gamepad(GamepadButton::East));
    assert_eq!(input_state.pop_input(), Some(Input::Up));
    assert_eq!(input_state.pop_input(), Some(Input::Select));
    assert_eq!(input_state.pop_input(), Some(Input::Cancel));
    assert_eq!(input_state.pop_input(), None);
}
