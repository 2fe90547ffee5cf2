use combat_engine::combatant::{Combatant, Gender, Modifier, Stat};
use combat_engine::lifetime::Lifetime;
use combat_engine::turn_order::compute_turn_order;

fn runner(name: &str, agility: u32) -> Combatant {
    Combatant {
        name: String::from(name),
        gender: Gender::Male,
        hp: 10,
        hp_max: 10,
        stats: vec![agility, 0, 0, 0, 0, 0, 0],
        modifiers: vec![vec![], vec![], vec![], vec![], vec![], vec![], vec![]],
        status_effects: vec![],
        actions: vec![0],
    }
}

#[test]
fn order_is_descending_in_agility() {
    let roster = vec![runner("a", 5), runner("b", 9), runner("c", 1), runner("d", 7)];
    assert_eq!(compute_turn_order(&roster), vec![1, 3, 0, 2]);
}

#[test]
fn ties_keep_roster_order() {
    let roster = vec![runner("a", 5), runner("b", 9), runner("c", 9), runner("d", 5)];
    assert_eq!(compute_turn_order(&roster), vec![1, 2, 0, 3]);
}

#[test]
fn order_uses_the_effective_agility() {
    // A modifier on Agility counts at encounter start.
    let mut roster = vec![runner("a", 5), runner("b", 4)];
    roster[1].modifiers[Stat::Agility.index()].push(Modifier {
        value: 3,
        lifetime: Lifetime::Permanent,
    });
    assert_eq!(compute_turn_order(&roster), vec![1, 0]);
}

#[test]
fn empty_and_single_rosters_have_trivial_orders() {
    assert_eq!(compute_turn_order(&vec![]), Vec::<usize>::new());
    assert_eq!(compute_turn_order(&vec![runner("a", 3)]), vec![0]);
}
