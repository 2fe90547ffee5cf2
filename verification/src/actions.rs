use vstd::prelude::*;
use crate::combatant::Gender;
use crate::effects::Effect;

verus! {

/// One eligibility condition on a target. A sub-action carries a conjunction
/// of flag groups; within a group, one flag holding is enough.
#[derive(Clone, Copy, Debug, PartialEq, Eq, Structural)]
pub enum TargetFlag {
    /// Any combatant qualifies.
    Any,
    /// Only combatants of this gender qualify.
    Gender(Gender),
    /// Only the acting combatant itself qualifies.
    Origin,
}

/// How many of the eligible targets a sub-action needs.
#[derive(Clone, Copy, Debug, PartialEq, Eq, Structural)]
pub enum TargetingScheme {
    /// Exactly one target, chosen by cursor.
    SingleTarget,
    /// A fixed number of targets, chosen one at a time; choosing the same
    /// target twice is permitted and not deduplicated.
    MultiTarget(usize),
    /// Every eligible target, with no interactive step.
    All,
}

/// One step of an action: an ordered effect list, the eligibility flags, and
/// the targeting scheme.
#[derive(Debug)]
pub struct SubAction {
    pub effects: Vec<Effect>,
    pub target_flags: Vec<Vec<TargetFlag>>,
    pub targeting_scheme: TargetingScheme,
}

/// The mathematical model of a sub-action.
#[verifier::ext_equal]
pub ghost struct SubActionView {
    pub effects: Seq<Effect>,
    pub target_flags: Seq<Seq<TargetFlag>>,
    pub targeting_scheme: TargetingScheme,
}

impl View for SubAction {
    type V = SubActionView;

    open spec fn view(&self) -> SubActionView {
        SubActionView {
            effects: self.effects@,
            target_flags: self.target_flags@.map_values(|group: Vec<TargetFlag>| group@),
            targeting_scheme: self.targeting_scheme,
        }
    }
}

/// A player-selectable move: an ordered list of sub-actions, each with its
/// own targeting and effects.
#[derive(Debug)]
pub struct Action {
    pub display_name: String,
    pub sub_actions: Vec<SubAction>,
}

/// The mathematical model of an action.
#[verifier::ext_equal]
pub ghost struct ActionView {
    pub display_name: Seq<char>,
    pub sub_actions: Seq<SubActionView>,
}

impl View for Action {
    type V = ActionView;

    open spec fn view(&self) -> ActionView {
        ActionView {
            display_name: self.display_name@,
            sub_actions: self.sub_actions@.map_values(|s: SubAction| s@),
        }
    }
}

/// The model of the read-only action catalog an encounter consumes: actions
/// are looked up by their index.
pub open spec fn catalog_view(catalog: Seq<Action>) -> Seq<ActionView> {
    catalog.map_values(|a: Action| a@)
}

/// An effect in valid catalog data: its scaling fraction has a non-zero
/// denominator.
pub open spec fn effect_wf(e: Effect) -> bool {
    match e {
        Effect::Damage(d) => d.scaling.valid(),
        Effect::StatusEffect(s) => s.scaling.valid(),
        Effect::Modifier(_, _) => true,
    }
}

/// A sub-action in valid catalog data: a multi-target scheme asks for at
/// least one target, and every effect is well-formed.
pub open spec fn sub_action_wf(s: SubActionView) -> bool {
    &&& match s.targeting_scheme {
        TargetingScheme::MultiTarget(count) => count >= 1,
        _ => true,
    }
    &&& forall|i: int| 0 <= i < s.effects.len() ==> effect_wf(#[trigger] s.effects[i])
}

/// An action in valid catalog data: few enough sub-actions to index, each
/// well-formed.
pub open spec fn action_wf(a: ActionView) -> bool {
    &&& a.sub_actions.len() <= usize::MAX
    &&& forall|i: int| 0 <= i < a.sub_actions.len() ==> sub_action_wf(#[trigger] a.sub_actions[i])
}

/// A well-formed action catalog.
pub open spec fn spec_catalog_wf(c: Seq<ActionView>) -> bool {
    forall|i: int| 0 <= i < c.len() ==> action_wf(#[trigger] c[i])
}

} // verus!
