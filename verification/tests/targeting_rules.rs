use combat_engine::actions::{SubAction, TargetFlag, TargetingScheme};
use combat_engine::combatant::{Combatant, Gender};
use combat_engine::targeting::resolve_targets;

fn person(name: &str, gender: Gender) -> Combatant {
    Combatant {
        name: String::from(name),
        gender,
        hp: 10,
        hp_max: 10,
        stats: vec![0; 7],
        modifiers: vec![vec![], vec![], vec![], vec![], vec![], vec![], vec![]],
        status_effects: vec![],
        actions: vec![0],
    }
}

fn sub_action(target_flags: Vec<Vec<TargetFlag>>) -> SubAction {
    SubAction { effects: vec![], target_flags, targeting_scheme: TargetingScheme::SingleTarget }
}

fn roster() -> Vec<Combatant> {
    vec![
        person("a", Gender::Male),
        person("b", Gender::Female),
        person("c", Gender::Female),
        person("d", Gender::Male),
    ]
}

#[test]
fn origin_flag_selects_exactly_the_source() {
    let sub = sub_action(vec![vec![TargetFlag::Origin]]);
    assert_eq!(resolve_targets(&roster(), 2, &sub), vec![2]);
}

#[test]
fn gender_flag_selects_exactly_that_gender() {
    let sub = sub_action(vec![vec![TargetFlag::Gender(Gender::Female)]]);
    assert_eq!(resolve_targets(&roster(), 0, &sub), vec![1, 2]);
}

#[test]
fn any_flag_selects_the_whole_roster() {
    let sub = sub_action(vec![vec![TargetFlag::Any]]);
    assert_eq!(resolve_targets(&roster(), 0, &sub), vec![0, 1, 2, 3]);
}

#[test]
fn and_groups_must_all_admit_the_target() {
    // Female AND origin: only a female source itself qualifies.
    let sub = sub_action(vec![
        vec![TargetFlag::Gender(Gender::Female)],
        vec![TargetFlag::Origin],
    ]);
    assert_eq!(resolve_targets(&roster(), 1, &sub), vec![1]);
    assert_eq!(resolve_targets(&roster(), 0, &sub), Vec::<usize>::new());
}

#[test]
fn or_conditions_within_a_group_suffice() {
    // Male or origin: every male, plus the female source.
    let sub = sub_action(vec![vec![TargetFlag::Gender(Gender::Male), TargetFlag::Origin]]);
    assert_eq!(resolve_targets(&roster(), 1, &sub), vec![0, 1, 3]);
}

#[test]
fn empty_group_admits_nobody() {
    let sub = sub_action(vec![vec![]]);
    assert_eq!(resolve_targets(&roster(), 0, &sub), Vec::<usize>::new());
}

#[test]
fn no_groups_admit_everybody() {
    // An empty conjunction holds of every index.
    let sub = sub_action(vec![]);
    assert_eq!(resolve_targets(&roster(), 0, &sub), vec![0, 1, 2, 3]);
}
