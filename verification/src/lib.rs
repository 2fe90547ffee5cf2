//! A turn-based combat resolution engine.
//!
//! Given a roster of combatants, the engine determines turn order, lets the
//! active combatant choose an action and its targets, applies the action's
//! effects (damage, stat modifiers, timed status effects), and advances to the
//! next turn, repeating until at most one combatant remains alive.
//!
//! The data model lives in `combatant`, `damage`, `lifetime` and `math`; the
//! action catalog in `actions`. The damage, modifier and status-effect
//! arithmetic is in `effects` and `engine`, target eligibility in
//! `targeting`, and the once-per-encounter scheduler in `turn_order`. The
//! six-phase turn protocol itself is in `combat_state`, driven by the input
//! queue of `input_state`. The remaining modules are the decision cores of
//! the menu, input-mapping and connection layers that surround an encounter.

pub mod lifetime;
pub mod math;
pub mod damage;
pub mod combatant;
pub mod effects;
pub mod actions;
pub mod targeting;
pub mod turn_order;
pub mod engine;
pub mod input_state;
pub mod combat_state;
pub mod input;
pub mod event;
pub mod client_event;
pub mod client_state;
pub mod game_state;
pub mod server_connection;
