use combat_engine::actions::{Action, SubAction, TargetFlag, TargetingScheme};
use combat_engine::combat_state::{CombatState, CombatStateType};
use combat_engine::combatant::{Combatant, Gender, Modifier, Stat};
use combat_engine::damage::DamageAspect;
use combat_engine::effects::{DamageEffect, Effect, StatusEffect};
use combat_engine::engine::{apply_effects_to_target, cleanup_expired, decrement_lifetimes, reapply_status_effects};
use combat_engine::input_state::{Input, InputState};
use combat_engine::lifetime::Lifetime;
use combat_engine::math::Fraction;

fn combatant(name: &str, agility: u32, attack: u32, defense: u32, hp: u32, actions: Vec<usize>) -> Combatant {
    Combatant {
        name: String::from(name),
        gender: Gender::Male,
        hp,
        hp_max: hp,
        stats: vec![agility, attack, defense, 0, 0, 0, 0],
        modifiers: vec![vec![], vec![], vec![], vec![], vec![], vec![], vec![]],
        status_effects: vec![],
        actions,
    }
}

fn strike(scheme: TargetingScheme) -> Action {
    Action {
        display_name: String::from("strike"),
        sub_actions: vec![SubAction {
            effects: vec![Effect::Damage(DamageEffect {
                aspect: DamageAspect::Physical,
                scaling: Fraction { numerator: 1, denominator: 1 },
            })],
            target_flags: vec![vec![TargetFlag::Any]],
            targeting_scheme: scheme,
        }],
    }
}

fn tick(state: CombatState, inputs: &[Input]) -> CombatState {
    let mut input_state = InputState::new();
    for input in inputs {
        input_state.push_input(*input);
    }
    state.update(&input_state)
}

fn roster_of(state: &CombatState) -> &Vec<Combatant> {
    match &state.state_type {
        CombatStateType::PreTurn(s) => &s.combatants,
        CombatStateType::GetAction(s) => &s.combatants,
        CombatStateType::GetSubAction(s) => &s.combatants,
        CombatStateType::GetTargets(s) => &s.combatants,
        CombatStateType::ApplyAction(s) => &s.combatants,
        CombatStateType::PostTurn(s) => &s.combatants,
    }
}

#[test]
fn first_tick_rests_on_the_fastest_combatant() {
    let roster = vec![
        combatant("slow", 2, 14, 4, 100, vec![0]),
        combatant("fast", 9, 6, 2, 100, vec![0]),
    ];
    let state = CombatState::new(roster, vec![strike(TargetingScheme::SingleTarget)]);
    assert!(matches!(state.state_type, CombatStateType::PreTurn(_)));
    let state = tick(state, &[]);
    match &state.state_type {
        CombatStateType::GetAction(s) => {
            assert_eq!(s.source_index, 1);
            assert_eq!(s.action_index, 0);
        }
        other => panic!("expected GetAction, got {:?}", other),
    }
}

#[test]
fn a_full_turn_applies_single_target_damage() {
    let roster = vec![
        combatant("hero", 9, 14, 3, 100, vec![0]),
        combatant("ogre", 1, 5, 4, 100, vec![0]),
    ];
    let state = CombatState::new(roster, vec![strike(TargetingScheme::SingleTarget)]);
    // Rest in GetAction for the hero, confirm the strike, move the cursor
    // onto the ogre, confirm the target: the turn applies and the next
    // GetAction is the ogre's.
    let state = tick(state, &[Input::Select, Input::Next, Input::Select]);
    match &state.state_type {
        CombatStateType::GetAction(s) => {
            assert_eq!(s.source_index, 1);
            // 14 raw - 4 defense = 10 net, absorption 0.
            assert_eq!(s.combatants[1].hp, 90);
            assert_eq!(s.combatants[0].hp, 100);
        }
        other => panic!("expected GetAction, got {:?}", other),
    }
}

#[test]
fn all_scheme_hits_every_eligible_target_without_input() {
    let roster = vec![
        combatant("hero", 9, 14, 3, 100, vec![0]),
        combatant("ogre", 1, 5, 4, 100, vec![0]),
    ];
    let state = CombatState::new(roster, vec![strike(TargetingScheme::All)]);
    // Confirm the action, then one confirm selects all targets at once.
    let state = tick(state, &[Input::Select, Input::Select]);
    match &state.state_type {
        CombatStateType::GetAction(s) => {
            // Hero hits itself (14 - 3 = 11) and the ogre (14 - 4 = 10).
            assert_eq!(s.combatants[0].hp, 89);
            assert_eq!(s.combatants[1].hp, 90);
        }
        other => panic!("expected GetAction, got {:?}", other),
    }
}

#[test]
fn multi_target_needs_exactly_three_confirms() {
    let roster = vec![
        combatant("hero", 9, 14, 3, 100, vec![0]),
        combatant("ogre", 1, 5, 4, 100, vec![0]),
    ];
    let state = CombatState::new(roster, vec![strike(TargetingScheme::MultiTarget(3))]);
    let state = tick(state, &[Input::Select, Input::Next]);
    assert!(matches!(state.state_type, CombatStateType::GetTargets(_)));
    // Two confirms are not enough: the phase stays GetTargets.
    let state = tick(state, &[Input::Select]);
    assert!(matches!(state.state_type, CombatStateType::GetTargets(_)));
    let state = tick(state, &[Input::Select]);
    assert!(matches!(state.state_type, CombatStateType::GetTargets(_)));
    // The third confirm completes the selection; the same target was
    // chosen three times and is hit three times (no deduplication).
    let state = tick(state, &[Input::Select]);
    match &state.state_type {
        CombatStateType::GetAction(s) => {
            assert_eq!(s.combatants[1].hp, 70);
        }
        other => panic!("expected GetAction, got {:?}", other),
    }
}

#[test]
fn cancel_restores_the_confirmed_snapshot() {
    let roster = vec![
        combatant("hero", 9, 14, 3, 100, vec![0, 0]),
        combatant("ogre", 1, 5, 4, 100, vec![0]),
    ];
    let state = CombatState::new(
        roster,
        vec![strike(TargetingScheme::SingleTarget)],
    );
    // Move the action cursor to the second slot, confirm, then cancel:
    // the cursor position comes back exactly.
    let state = tick(state, &[Input::Next]);
    let state = tick(state, &[Input::Select]);
    assert!(matches!(state.state_type, CombatStateType::GetTargets(_)));
    let state = tick(state, &[Input::Cancel]);
    match &state.state_type {
        CombatStateType::GetAction(s) => {
            assert_eq!(s.action_index, 1);
            assert_eq!(s.source_index, 0);
        }
        other => panic!("expected GetAction, got {:?}", other),
    }
}

#[test]
fn cancel_with_empty_history_is_a_no_op() {
    let roster = vec![
        combatant("hero", 9, 14, 3, 100, vec![0]),
        combatant("ogre", 1, 5, 4, 100, vec![0]),
    ];
    let state = CombatState::new(roster, vec![strike(TargetingScheme::SingleTarget)]);
    let state = tick(state, &[Input::Cancel]);
    match &state.state_type {
        CombatStateType::GetAction(s) => assert_eq!(s.source_index, 0),
        other => panic!("expected GetAction, got {:?}", other),
    }
}

#[test]
fn encounter_halts_once_one_combatant_remains() {
    let roster = vec![
        combatant("hero", 9, 14, 3, 100, vec![0]),
        combatant("ogre", 1, 5, 4, 10, vec![0]),
    ];
    let state = CombatState::new(roster, vec![strike(TargetingScheme::SingleTarget)]);
    // The strike deals 10 net damage: the ogre drops to zero and the
    // machine rests in PreTurn instead of opening the ogre's turn.
    let state = tick(state, &[Input::Select, Input::Next, Input::Select]);
    match &state.state_type {
        CombatStateType::PreTurn(s) => assert_eq!(s.combatants[1].hp, 0),
        other => panic!("expected PreTurn, got {:?}", other),
    }
    // Further inputs do not advance the phases.
    let state = tick(state, &[Input::Next, Input::Select, Input::Previous]);
    assert!(matches!(state.state_type, CombatStateType::PreTurn(_)));
    let state = tick(state, &[]);
    assert!(matches!(state.state_type, CombatStateType::PreTurn(_)));
}

#[test]
fn modifier_expires_after_its_last_turn() {
    let mut c = combatant("hero", 9, 14, 3, 100, vec![0]);
    let idx = Stat::PhysicalAttack.index();
    c.modifiers[idx].push(Modifier { value: 6, lifetime: Lifetime::Active(1) });
    c.modifiers[idx].push(Modifier { value: 1, lifetime: Lifetime::Permanent });

    // Pre-turn decrement: the timed modifier reaches Active(0) but still
    // counts for this turn's calculations.
    decrement_lifetimes(&mut c);
    assert_eq!(c.modifiers[idx].len(), 2);
    assert_eq!(c.modifiers[idx][0].lifetime, Lifetime::Active(0));
    assert_eq!(c.get_stat(Stat::PhysicalAttack), 21);

    // Post-turn cleanup: the expired modifier is removed; Permanent stays.
    cleanup_expired(&mut c);
    assert_eq!(c.modifiers[idx].len(), 1);
    assert_eq!(c.modifiers[idx][0].lifetime, Lifetime::Permanent);
    assert_eq!(c.get_stat(Stat::PhysicalAttack), 15);
}

#[test]
fn status_effect_expires_after_its_last_turn() {
    let mut c = combatant("hero", 9, 14, 3, 100, vec![0]);
    c.status_effects.push(combat_engine::damage::StatusEffectEntry {
        aspect: DamageAspect::Fire,
        value: 4,
        lifetime: Lifetime::Active(1),
    });
    decrement_lifetimes(&mut c);
    assert_eq!(c.status_effects.len(), 1);
    assert_eq!(c.status_effects[0].lifetime, Lifetime::Active(0));
    cleanup_expired(&mut c);
    assert_eq!(c.status_effects.len(), 0);
}

#[test]
fn status_effect_value_stays_pinned_to_apply_time() {
    let mut roster = vec![
        combatant("hero", 9, 14, 3, 100, vec![0]),
        combatant("ogre", 1, 5, 4, 100, vec![0]),
    ];
    roster[0].stats[Stat::FireAttack.index()] = 10;
    let burn = vec![Effect::StatusEffect(StatusEffect {
        aspect: DamageAspect::Fire,
        scaling: Fraction { numerator: 1, denominator: 1 },
        lifetime: Lifetime::Active(2),
    })];
    apply_effects_to_target(&mut roster, 0, 1, &burn);
    assert_eq!(roster[1].status_effects[0].value, 10);

    // The source's FireAttack changes afterwards; the stored value does not.
    roster[0].modifiers[Stat::FireAttack.index()].push(Modifier {
        value: 90,
        lifetime: Lifetime::Permanent,
    });
    assert_eq!(roster[1].status_effects[0].value, 10);

    // The post-turn tick re-applies the stored value, not a recomputation:
    // the ogre has no fire defense, so it loses exactly 10.
    let mut ogre = roster.remove(1);
    reapply_status_effects(&mut ogre);
    assert_eq!(ogre.hp, 90);
}

#[test]
fn sub_action_without_eligible_targets_is_skipped() {
    // The only sub-action targets females; the roster has none, so the
    // turn applies nothing and moves on.
    let roster = vec![
        combatant("hero", 9, 14, 3, 100, vec![0]),
        combatant("ogre", 1, 5, 4, 100, vec![0]),
    ];
    let catalog = vec![Action {
        display_name: String::from("charm"),
        sub_actions: vec![SubAction {
            effects: vec![Effect::Damage(DamageEffect {
                aspect: DamageAspect::Physical,
                scaling: Fraction { numerator: 1, denominator: 1 },
            })],
            target_flags: vec![vec![TargetFlag::Gender(Gender::Female)]],
            targeting_scheme: TargetingScheme::SingleTarget,
        }],
    }];
    let state = CombatState::new(roster, catalog);
    let state = tick(state, &[Input::Select]);
    match &state.state_type {
        CombatStateType::GetAction(s) => {
            assert_eq!(s.source_index, 1);
            assert_eq!(s.combatants[0].hp, 100);
            assert_eq!(s.combatants[1].hp, 100);
        }
        other => panic!("expected GetAction, got {:?}", other),
    }
}

#[test]
fn timed_modifier_lives_for_exactly_two_of_its_owners_turns() {
    // The hero's only action first buffs its own Physical Attack with a
    // one-turn modifier, then strikes; the ogre strikes back.
    let empower_strike = Action {
        display_name: String::from("empowered strike"),
        sub_actions: vec![
            SubAction {
                effects: vec![Effect::Modifier(
                    Modifier { value: 6, lifetime: Lifetime::Active(1) },
                    Stat::PhysicalAttack,
                )],
                target_flags: vec![vec![TargetFlag::Origin]],
                targeting_scheme: TargetingScheme::All,
            },
            SubAction {
                effects: vec![Effect::Damage(DamageEffect {
                    aspect: DamageAspect::Physical,
                    scaling: Fraction { numerator: 1, denominator: 1 },
                })],
                target_flags: vec![vec![TargetFlag::Any]],
                targeting_scheme: TargetingScheme::SingleTarget,
            },
        ],
    };
    let roster = vec![
        combatant("hero", 9, 8, 3, 100, vec![0]),
        combatant("ogre", 1, 11, 4, 100, vec![1]),
    ];
    let catalog = vec![empower_strike, strike(TargetingScheme::SingleTarget)];
    let state = CombatState::new(roster, catalog);

    // Hero's turn: buff self, strike the ogre with the buffed stat:
    // (8 + 6) - 4 defense = 10 damage.
    let state = tick(state, &[Input::Select, Input::Select, Input::Next, Input::Select]);
    {
        let roster = roster_of(&state);
        assert_eq!(roster[1].hp, 90);
        let mods = &roster[0].modifiers[Stat::PhysicalAttack.index()];
        assert_eq!(mods.len(), 1);
        assert_eq!(mods[0].lifetime, Lifetime::Active(1));
    }

    // Ogre's turn: 11 - 3 = 8 onto the hero. Entering the hero's next
    // turn decrements the buff to its last turn.
    let state = tick(state, &[Input::Select, Input::Select]);
    {
        let roster = roster_of(&state);
        assert_eq!(roster[0].hp, 92);
        let mods = &roster[0].modifiers[Stat::PhysicalAttack.index()];
        assert_eq!(mods[0].lifetime, Lifetime::Active(0));
        // Expired but not yet cleaned up: it still counts this turn.
        assert_eq!(roster[0].get_stat(Stat::PhysicalAttack), 14);
    }

    // The hero acts again: the expired buff still counts during this, its
    // second turn (cleanup only runs at the turn's end), and the action
    // stacks a fresh one on top: (8 + 6 + 6) - 4 = 16 damage. The
    // post-turn cleanup then removes the expired buff — it never reaches
    // a third turn.
    let state = tick(state, &[Input::Select, Input::Select, Input::Next, Input::Select]);
    {
        let roster = roster_of(&state);
        assert_eq!(roster[1].hp, 74);
        let mods = &roster[0].modifiers[Stat::PhysicalAttack.index()];
        assert_eq!(mods.len(), 1);
        assert_eq!(mods[0].lifetime, Lifetime::Active(1));
    }
}

#[test]
fn status_effect_ticks_once_per_owner_turn_until_expiry() {
    let scorch = Action {
        display_name: String::from("scorch"),
        sub_actions: vec![SubAction {
            effects: vec![Effect::StatusEffect(StatusEffect {
                aspect: DamageAspect::Fire,
                scaling: Fraction { numerator: 1, denominator: 1 },
                lifetime: Lifetime::Active(2),
            })],
            target_flags: vec![vec![TargetFlag::Any]],
            targeting_scheme: TargetingScheme::SingleTarget,
        }],
    };
    let mut hero = combatant("hero", 9, 8, 3, 60, vec![0, 1]);
    hero.stats[Stat::FireAttack.index()] = 10;
    let ogre = combatant("ogre", 1, 11, 4, 95, vec![1]);
    let catalog = vec![scorch, strike(TargetingScheme::SingleTarget)];
    let state = CombatState::new(vec![hero, ogre], catalog);

    // Hero scorches the ogre: the entry stores the hero's FireAttack of 10.
    // Entering the ogre's turn spends one of its two turns.
    let state = tick(state, &[Input::Select, Input::Next, Input::Select]);
    {
        let roster = roster_of(&state);
        assert_eq!(roster[1].hp, 95);
        assert_eq!(roster[1].status_effects[0].value, 10);
        assert_eq!(roster[1].status_effects[0].lifetime, Lifetime::Active(1));
    }

    // Ogre strikes the hero (11 - 3 = 8), then its post-turn tick burns it
    // for the stored 10.
    let state = tick(state, &[Input::Select, Input::Select]);
    {
        let roster = roster_of(&state);
        assert_eq!(roster[0].hp, 52);
        assert_eq!(roster[1].hp, 85);
        assert_eq!(roster[1].status_effects[0].lifetime, Lifetime::Active(1));
    }

    // Hero strikes plainly (8 - 4 = 4); entering the ogre's turn expires
    // the burn, which still ticks once more before the cleanup removes it.
    let state = tick(state, &[Input::Next, Input::Select, Input::Next, Input::Select]);
    {
        let roster = roster_of(&state);
        assert_eq!(roster[1].hp, 81);
        assert_eq!(roster[1].status_effects[0].lifetime, Lifetime::Active(0));
    }
    let state = tick(state, &[Input::Select, Input::Select]);
    {
        let roster = roster_of(&state);
        assert_eq!(roster[0].hp, 44);
        assert_eq!(roster[1].hp, 71);
        assert_eq!(roster[1].status_effects.len(), 0);
    }
}

#[test]
fn turn_order_is_not_recomputed_mid_encounter() {
    // The turn order is fixed at encounter start; a full turn later the
    // machine still carries the same sequence.
    let roster = vec![
        combatant("hero", 9, 14, 3, 100, vec![0]),
        combatant("ogre", 1, 5, 4, 100, vec![0]),
    ];
    let state = CombatState::new(roster, vec![strike(TargetingScheme::SingleTarget)]);
    let before = match &state.state_type {
        CombatStateType::PreTurn(s) => s.turn_order.clone(),
        other => panic!("expected PreTurn, got {:?}", other),
    };
    let state = tick(state, &[Input::Select, Input::Next, Input::Select]);
    let after = match &state.state_type {
        CombatStateType::GetAction(s) => s.turn_order.clone(),
        other => panic!("expected GetAction, got {:?}", other),
    };
    assert_eq!(before, after);
}
