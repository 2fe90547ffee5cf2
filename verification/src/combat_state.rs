use vstd::prelude::*;
use crate::actions::{Action, ActionView, catalog_view, spec_catalog_wf, TargetingScheme};
use crate::combatant::{
    clone_combatants, clone_copy_vec, clone_nested_copy_vec, Combatant, CombatantView, roster_view,
};
use crate::engine::{
    placeholder_combatant, spec_apply_sub_actions, spec_cleanup_combatant, spec_decrement_combatant,
    spec_reapply_status, targets_view, apply_action, decrement_lifetimes, cleanup_expired,
    reapply_status_effects,
};
use crate::targeting::{resolve_targets, spec_possible_targets};
use crate::input_state::{Input, InputState};
use vstd::pervasive::VecAdditionalExecFns;

verus! {

// --- Phase data -----------------------------------------------------------

/// The resting phase between turns: the next `PreTurn -> GetAction` edge
/// runs the pre-turn bookkeeping and picks the next acting combatant.
#[derive(Debug)]
pub struct PreTurn {
    pub combatants: Vec<Combatant>,
    pub turn_order: Vec<usize>,
    pub turn_order_iterator: usize,
}

/// The acting combatant is choosing an action with a cyclic cursor.
#[derive(Debug)]
pub struct GetAction {
    pub combatants: Vec<Combatant>,
    pub turn_order: Vec<usize>,
    pub turn_order_iterator: usize,
    pub source_index: usize,
    pub action_index: usize,
}

/// Between sub-actions: the machine decides whether the next sub-action
/// needs targets or whether the action is ready to apply.
#[derive(Debug)]
pub struct GetSubAction {
    pub combatants: Vec<Combatant>,
    pub turn_order: Vec<usize>,
    pub turn_order_iterator: usize,
    pub source_index: usize,
    pub action_index: usize,
    pub sub_action_index: usize,
    pub target_indices: Vec<Vec<usize>>,
}

/// The acting combatant is choosing targets for the current sub-action from
/// the eligible candidates, with a cyclic cursor.
#[derive(Debug)]
pub struct GetTargets {
    pub combatants: Vec<Combatant>,
    pub turn_order: Vec<usize>,
    pub turn_order_iterator: usize,
    pub source_index: usize,
    pub action_index: usize,
    pub sub_action_index: usize,
    pub target_indices: Vec<Vec<usize>>,
    pub possible_targets: Vec<usize>,
    pub target_index: usize,
    pub target_count: usize,
}

/// Every sub-action has its targets: the chosen action is applied in full
/// on the next edge.
#[derive(Debug)]
pub struct ApplyAction {
    pub combatants: Vec<Combatant>,
    pub turn_order: Vec<usize>,
    pub turn_order_iterator: usize,
    pub source_index: usize,
    pub action_index: usize,
    pub target_indices: Vec<Vec<usize>>,
}

/// The turn is over: the next edge re-applies stored status effects to the
/// acting combatant and removes expired entries.
#[derive(Debug)]
pub struct PostTurn {
    pub combatants: Vec<Combatant>,
    pub turn_order: Vec<usize>,
    pub turn_order_iterator: usize,
    pub source_index: usize,
}

// --- Phase views ------------------------------------------------------------

#[verifier::ext_equal]
pub ghost struct PreTurnView {
    pub combatants: Seq<CombatantView>,
    pub turn_order: Seq<usize>,
    pub turn_order_iterator: usize,
}

#[verifier::ext_equal]
pub ghost struct GetActionView {
    pub combatants: Seq<CombatantView>,
    pub turn_order: Seq<usize>,
    pub turn_order_iterator: usize,
    pub source_index: usize,
    pub action_index: usize,
}

#[verifier::ext_equal]
pub ghost struct GetSubActionView {
    pub combatants: Seq<CombatantView>,
    pub turn_order: Seq<usize>,
    pub turn_order_iterator: usize,
    pub source_index: usize,
    pub action_index: usize,
    pub sub_action_index: usize,
    pub target_indices: Seq<Seq<usize>>,
}

#[verifier::ext_equal]
pub ghost struct GetTargetsView {
    pub combatants: Seq<CombatantView>,
    pub turn_order: Seq<usize>,
    pub turn_order_iterator: usize,
    pub source_index: usize,
    pub action_index: usize,
    pub sub_action_index: usize,
    pub target_indices: Seq<Seq<usize>>,
    pub possible_targets: Seq<usize>,
    pub target_index: usize,
    pub target_count: usize,
}

#[verifier::ext_equal]
pub ghost struct ApplyActionView {
    pub combatants: Seq<CombatantView>,
    pub turn_order: Seq<usize>,
    pub turn_order_iterator: usize,
    pub source_index: usize,
    pub action_index: usize,
    pub target_indices: Seq<Seq<usize>>,
}

#[verifier::ext_equal]
pub ghost struct PostTurnView {
    pub combatants: Seq<CombatantView>,
    pub turn_order: Seq<usize>,
    pub turn_order_iterator: usize,
    pub source_index: usize,
}

impl View for PreTurn {
    type V = PreTurnView;

    open spec fn view(&self) -> PreTurnView {
        PreTurnView {
            combatants: roster_view(self.combatants@),
            turn_order: self.turn_order@,
            turn_order_iterator: self.turn_order_iterator,
        }
    }
}

impl View for GetAction {
    type V = GetActionView;

    open spec fn view(&self) -> GetActionView {
        GetActionView {
            combatants: roster_view(self.combatants@),
            turn_order: self.turn_order@,
            turn_order_iterator: self.turn_order_iterator,
            source_index: self.source_index,
            action_index: self.action_index,
        }
    }
}

impl View for GetSubAction {
    type V = GetSubActionView;

    open spec fn view(&self) -> GetSubActionView {
        GetSubActionView {
            combatants: roster_view(self.combatants@),
            turn_order: self.turn_order@,
            turn_order_iterator: self.turn_order_iterator,
            source_index: self.source_index,
            action_index: self.action_index,
            sub_action_index: self.sub_action_index,
            target_indices: targets_view(self.target_indices@),
        }
    }
}

impl View for GetTargets {
    type V = GetTargetsView;

    open spec fn view(&self) -> GetTargetsView {
        GetTargetsView {
            combatants: roster_view(self.combatants@),
            turn_order: self.turn_order@,
            turn_order_iterator: self.turn_order_iterator,
            source_index: self.source_index,
            action_index: self.action_index,
            sub_action_index: self.sub_action_index,
            target_indices: targets_view(self.target_indices@),
            possible_targets: self.possible_targets@,
            target_index: self.target_index,
            target_count: self.target_count,
        }
    }
}

impl View for ApplyAction {
    type V = ApplyActionView;

    open spec fn view(&self) -> ApplyActionView {
        ApplyActionView {
            combatants: roster_view(self.combatants@),
            turn_order: self.turn_order@,
            turn_order_iterator: self.turn_order_iterator,
            source_index: self.source_index,
            action_index: self.action_index,
            target_indices: targets_view(self.target_indices@),
        }
    }
}

impl View for PostTurn {
    type V = PostTurnView;

    open spec fn view(&self) -> PostTurnView {
        PostTurnView {
            combatants: roster_view(self.combatants@),
            turn_order: self.turn_order@,
            turn_order_iterator: self.turn_order_iterator,
            source_index: self.source_index,
        }
    }
}

/// One phase of the combat turn protocol.
#[derive(Debug)]
pub enum CombatStateType {
    PreTurn(PreTurn),
    GetAction(GetAction),
    GetSubAction(GetSubAction),
    GetTargets(GetTargets),
    ApplyAction(ApplyAction),
    PostTurn(PostTurn),
}

/// The mathematical model of one phase.
#[verifier::ext_equal]
pub ghost enum CombatStateTypeView {
    PreTurn(PreTurnView),
    GetAction(GetActionView),
    GetSubAction(GetSubActionView),
    GetTargets(GetTargetsView),
    ApplyAction(ApplyActionView),
    PostTurn(PostTurnView),
}

impl View for CombatStateType {
    type V = CombatStateTypeView;

    open spec fn view(&self) -> CombatStateTypeView {
        match self {
            CombatStateType::PreTurn(s) => CombatStateTypeView::PreTurn(s@),
            CombatStateType::GetAction(s) => CombatStateTypeView::GetAction(s@),
            CombatStateType::GetSubAction(s) => CombatStateTypeView::GetSubAction(s@),
            CombatStateType::GetTargets(s) => CombatStateTypeView::GetTargets(s@),
            CombatStateType::ApplyAction(s) => CombatStateTypeView::ApplyAction(s@),
            CombatStateType::PostTurn(s) => CombatStateTypeView::PostTurn(s@),
        }
    }
}

// --- Well-formedness --------------------------------------------------------

/// A valid turn order list for a roster of `n` combatants: `n` entries, each
/// a roster index.
pub open spec fn order_wf(order: Seq<usize>, n: nat) -> bool {
    &&& order.len() == n
    &&& forall|i: int| 0 <= i < order.len() ==> (#[trigger] order[i]) < n
}

/// A roster fit to fight over a catalog: every combatant is well-formed,
/// knows at least one action, and every action identifier resolves in the
/// catalog.
pub open spec fn encounter_roster_wf(roster: Seq<CombatantView>, catalog: Seq<ActionView>) -> bool {
    &&& roster.len() <= usize::MAX
    &&& forall|i: int| 0 <= i < roster.len() ==> (#[trigger] roster[i]).wf()
    &&& forall|i: int| 0 <= i < roster.len() ==> (#[trigger] roster[i]).actions.len() >= 1
    &&& forall|i: int, j: int|
        0 <= i < roster.len() && 0 <= j < roster[i].actions.len() ==> (#[trigger] roster[i].actions[j])
            < catalog.len()
}

/// The action the combatant at `source_index` has selected at cursor
/// position `action_index`, resolved in the catalog.
pub open spec fn spec_action_at(
    catalog: Seq<ActionView>,
    roster: Seq<CombatantView>,
    source_index: int,
    action_index: int,
) -> ActionView {
    catalog[roster[source_index].actions[action_index] as int]
}

/// The per-sub-action collected targets: one inner list per finished
/// sub-action, each entry a roster index.
pub open spec fn target_indices_wf(tis: Seq<Seq<usize>>, n: nat) -> bool {
    forall|i: int, j: int| 0 <= i < tis.len() && 0 <= j < tis[i].len() ==> (#[trigger] tis[i][j]) < n
}

impl PreTurnView {
    pub open spec fn wf(self, catalog: Seq<ActionView>) -> bool {
        &&& encounter_roster_wf(self.combatants, catalog)
        &&& order_wf(self.turn_order, self.combatants.len())
        &&& self.turn_order.len() == 0 ==> self.turn_order_iterator == 0
        &&& self.turn_order.len() > 0 ==> self.turn_order_iterator < self.turn_order.len()
    }
}

impl GetActionView {
    pub open spec fn wf(self, catalog: Seq<ActionView>) -> bool {
        &&& encounter_roster_wf(self.combatants, catalog)
        &&& order_wf(self.turn_order, self.combatants.len())
        &&& self.turn_order.len() > 0
        &&& self.turn_order_iterator < self.turn_order.len()
        &&& self.source_index < self.combatants.len()
        &&& self.action_index < self.combatants[self.source_index as int].actions.len()
    }
}

impl GetSubActionView {
    pub open spec fn wf(self, catalog: Seq<ActionView>) -> bool {
        let action = spec_action_at(
            catalog,
            self.combatants,
            self.source_index as int,
            self.action_index as int,
        );
        &&& encounter_roster_wf(self.combatants, catalog)
        &&& order_wf(self.turn_order, self.combatants.len())
        &&& self.turn_order.len() > 0
        &&& self.turn_order_iterator < self.turn_order.len()
        &&& self.source_index < self.combatants.len()
        &&& self.action_index < self.combatants[self.source_index as int].actions.len()
        &&& self.sub_action_index <= action.sub_actions.len()
        &&& self.target_indices.len() == self.sub_action_index
        &&& target_indices_wf(self.target_indices, self.combatants.len())
    }
}

impl GetTargetsView {
    pub open spec fn wf(self, catalog: Seq<ActionView>) -> bool {
        let action = spec_action_at(
            catalog,
            self.combatants,
            self.source_index as int,
            self.action_index as int,
        );
        &&& encounter_roster_wf(self.combatants, catalog)
        &&& order_wf(self.turn_order, self.combatants.len())
        &&& self.turn_order.len() > 0
        &&& self.turn_order_iterator < self.turn_order.len()
        &&& self.source_index < self.combatants.len()
        &&& self.action_index < self.combatants[self.source_index as int].actions.len()
        &&& self.sub_action_index < action.sub_actions.len()
        &&& target_indices_wf(self.target_indices, self.combatants.len())
        &&& self.possible_targets.len() > 0
        &&& forall|i: int|
            0 <= i < self.possible_targets.len() ==> (#[trigger] self.possible_targets[i])
                < self.combatants.len()
        &&& self.target_index < self.possible_targets.len()
        &&& match action.sub_actions[self.sub_action_index as int].targeting_scheme {
            TargetingScheme::All | TargetingScheme::SingleTarget => {
                &&& self.target_count == 0
                &&& self.target_indices.len() == self.sub_action_index
            },
            TargetingScheme::MultiTarget(count) => {
                &&& self.target_count < count
                &&& if self.target_count == 0 {
                    self.target_indices.len() == self.sub_action_index
                } else {
                    self.target_indices.len() == self.sub_action_index + 1
                }
            },
        }
    }
}

impl ApplyActionView {
    pub open spec fn wf(self, catalog: Seq<ActionView>) -> bool {
        let action = spec_action_at(
            catalog,
            self.combatants,
            self.source_index as int,
            self.action_index as int,
        );
        &&& encounter_roster_wf(self.combatants, catalog)
        &&& order_wf(self.turn_order, self.combatants.len())
        &&& self.turn_order.len() > 0
        &&& self.turn_order_iterator < self.turn_order.len()
        &&& self.source_index < self.combatants.len()
        &&& self.action_index < self.combatants[self.source_index as int].actions.len()
        &&& self.target_indices.len() == action.sub_actions.len()
        &&& target_indices_wf(self.target_indices, self.combatants.len())
    }
}

impl PostTurnView {
    pub open spec fn wf(self, catalog: Seq<ActionView>) -> bool {
        &&& encounter_roster_wf(self.combatants, catalog)
        &&& order_wf(self.turn_order, self.combatants.len())
        &&& self.turn_order.len() > 0
        &&& self.turn_order_iterator < self.turn_order.len()
        &&& self.source_index < self.combatants.len()
    }
}

/// Well-formedness of whatever phase the machine is in.
pub open spec fn phase_wf(st: CombatStateTypeView, catalog: Seq<ActionView>) -> bool {
    match st {
        CombatStateTypeView::PreTurn(s) => s.wf(catalog),
        CombatStateTypeView::GetAction(s) => s.wf(catalog),
        CombatStateTypeView::GetSubAction(s) => s.wf(catalog),
        CombatStateTypeView::GetTargets(s) => s.wf(catalog),
        CombatStateTypeView::ApplyAction(s) => s.wf(catalog),
        CombatStateTypeView::PostTurn(s) => s.wf(catalog),
    }
}

// --- Snapshots --------------------------------------------------------------

impl Clone for GetAction {
    /// A snapshot for the cancel stack: indistinguishable from the original.
    fn clone(&self) -> (r: Self)
        ensures
            r@ == self@,
    {
        let r = GetAction {
            combatants: clone_combatants(&self.combatants),
            turn_order: clone_copy_vec(&self.turn_order),
            turn_order_iterator: self.turn_order_iterator,
            source_index: self.source_index,
            action_index: self.action_index,
        };
        proof {
            assert(r@ =~= self@);
        }
        r
    }
}

impl Clone for GetTargets {
    /// A snapshot for the cancel stack: indistinguishable from the original.
    fn clone(&self) -> (r: Self)
        ensures
            r@ == self@,
    {
        let r = GetTargets {
            combatants: clone_combatants(&self.combatants),
            turn_order: clone_copy_vec(&self.turn_order),
            turn_order_iterator: self.turn_order_iterator,
            source_index: self.source_index,
            action_index: self.action_index,
            sub_action_index: self.sub_action_index,
            target_indices: clone_nested_copy_vec(&self.target_indices),
            possible_targets: clone_copy_vec(&self.possible_targets),
            target_index: self.target_index,
            target_count: self.target_count,
        };
        proof {
            assert(r@.target_indices =~= self@.target_indices);
            assert(r@ =~= self@);
        }
        r
    }
}

// --- Spec transitions -------------------------------------------------------

/// `PreTurn -> GetAction`: pick the acting combatant from the turn order,
/// advance the cyclic iterator, run its pre-turn lifetime decrements, and
/// reset the action cursor.
pub open spec fn spec_pre_turn_advance(p: PreTurnView) -> GetActionView {
    let source = p.turn_order[p.turn_order_iterator as int];
    GetActionView {
        combatants: p.combatants.update(
            source as int,
            spec_decrement_combatant(p.combatants[source as int]),
        ),
        turn_order: p.turn_order,
        turn_order_iterator: (((p.turn_order_iterator + 1) as int) % (p.turn_order.len() as int)) as usize,
        source_index: source,
        action_index: 0,
    }
}

/// `GetAction -> GetSubAction` on a confirm: start the chosen action at its
/// first sub-action with no targets collected yet.
pub open spec fn spec_confirm_action(g: GetActionView) -> GetSubActionView {
    GetSubActionView {
        combatants: g.combatants,
        turn_order: g.turn_order,
        turn_order_iterator: g.turn_order_iterator,
        source_index: g.source_index,
        action_index: g.action_index,
        sub_action_index: 0,
        target_indices: Seq::empty(),
    }
}

/// Cursor movement in `GetAction`: `Next` and `Previous` cycle over the
/// acting combatant's actions; other inputs leave the cursor alone.
pub open spec fn spec_transform_get_action(g: GetActionView, input: Input) -> GetActionView {
    let len = g.combatants[g.source_index as int].actions.len() as int;
    let cursor: int = match input {
        Input::Next => (g.action_index + 1) as int % len,
        Input::Previous => if g.action_index == 0 {
            len - 1
        } else {
            g.action_index - 1
        },
        _ => g.action_index as int,
    };
    GetActionView { action_index: cursor as usize, ..g }
}

/// Cursor movement in `GetTargets`: `Next` and `Previous` cycle over the
/// eligible targets.
pub open spec fn spec_transform_get_targets(g: GetTargetsView, input: Input) -> GetTargetsView {
    let len = g.possible_targets.len() as int;
    let cursor: int = match input {
        Input::Next => (g.target_index + 1) as int % len,
        Input::Previous => if g.target_index == 0 {
            len - 1
        } else {
            g.target_index - 1
        },
        _ => g.target_index as int,
    };
    GetTargetsView { target_index: cursor as usize, ..g }
}

/// Where the machine goes after `GetSubAction`: to target collection for
/// the next sub-action, or to application when none is left.
#[verifier::ext_equal]
pub ghost enum SubActionOutcomeView {
    Targets(GetTargetsView),
    Apply(ApplyActionView),
}

/// The advance from sub-action `idx` with collected targets `tis`; the
/// recursion that `spec_advance_sub_action` starts.
pub open spec fn spec_advance_sub_action_from(
    s: GetSubActionView,
    catalog: Seq<ActionView>,
    idx: int,
    tis: Seq<Seq<usize>>,
) -> SubActionOutcomeView
    decreases spec_action_at(
        catalog,
        s.combatants,
        s.source_index as int,
        s.action_index as int,
    ).sub_actions.len() - idx,
{
    let action = spec_action_at(catalog, s.combatants, s.source_index as int, s.action_index as int);
    if idx >= action.sub_actions.len() {
        SubActionOutcomeView::Apply(
            ApplyActionView {
                combatants: s.combatants,
                turn_order: s.turn_order,
                turn_order_iterator: s.turn_order_iterator,
                source_index: s.source_index,
                action_index: s.action_index,
                target_indices: tis,
            },
        )
    } else {
        let possible = spec_possible_targets(
            action.sub_actions[idx].target_flags,
            s.combatants,
            s.source_index as int,
        );
        if possible.len() > 0 {
            SubActionOutcomeView::Targets(
                GetTargetsView {
                    combatants: s.combatants,
                    turn_order: s.turn_order,
                    turn_order_iterator: s.turn_order_iterator,
                    source_index: s.source_index,
                    action_index: s.action_index,
                    sub_action_index: idx as usize,
                    target_indices: tis,
                    possible_targets: possible,
                    target_index: 0,
                    target_count: 0,
                },
            )
        } else {
            spec_advance_sub_action_from(s, catalog, idx + 1, tis.push(Seq::empty()))
        }
    }
}

/// `GetSubAction -> GetTargets | ApplyAction`: resolve the eligible targets
/// of the current sub-action. A sub-action with no eligible target is
/// skipped with an empty selection, so its effects apply to nobody; when no
/// sub-action is left, the action is ready to apply.
pub open spec fn spec_advance_sub_action(
    s: GetSubActionView,
    catalog: Seq<ActionView>,
) -> SubActionOutcomeView {
    spec_advance_sub_action_from(s, catalog, s.sub_action_index as int, s.target_indices)
}

/// Where the machine goes after a confirm in `GetTargets`: on to the next
/// sub-action, or back for more targets of the same one.
#[verifier::ext_equal]
pub ghost enum TargetsOutcomeView {
    Next(GetSubActionView),
    More(GetTargetsView),
}

/// The collected-target lists with a slot ready for the current
/// sub-action's picks.
pub open spec fn spec_with_slot(tis: Seq<Seq<usize>>, idx: int) -> Seq<Seq<usize>> {
    if tis.len() <= idx {
        tis.push(Seq::empty())
    } else {
        tis
    }
}

/// `GetTargets -> GetSubAction | GetTargets` on a confirm, by targeting
/// scheme: `All` selects every eligible target at once; `SingleTarget`
/// records the cursor's target and moves on; `MultiTarget(count)` records
/// the cursor's target and moves on only once `count` targets are recorded.
pub open spec fn spec_confirm_targets(
    g: GetTargetsView,
    catalog: Seq<ActionView>,
) -> TargetsOutcomeView {
    let action = spec_action_at(catalog, g.combatants, g.source_index as int, g.action_index as int);
    match action.sub_actions[g.sub_action_index as int].targeting_scheme {
        TargetingScheme::All => TargetsOutcomeView::Next(
            GetSubActionView {
                combatants: g.combatants,
                turn_order: g.turn_order,
                turn_order_iterator: g.turn_order_iterator,
                source_index: g.source_index,
                action_index: g.action_index,
                sub_action_index: (g.sub_action_index + 1) as usize,
                target_indices: g.target_indices.push(g.possible_targets),
            },
        ),
        TargetingScheme::SingleTarget => {
            let tis = spec_with_slot(g.target_indices, g.sub_action_index as int);
            let tis2 = tis.update(
                g.sub_action_index as int,
                tis[g.sub_action_index as int].push(g.possible_targets[g.target_index as int]),
            );
            TargetsOutcomeView::Next(
                GetSubActionView {
                    combatants: g.combatants,
                    turn_order: g.turn_order,
                    turn_order_iterator: g.turn_order_iterator,
                    source_index: g.source_index,
                    action_index: g.action_index,
                    sub_action_index: (g.sub_action_index + 1) as usize,
                    target_indices: tis2,
                },
            )
        },
        TargetingScheme::MultiTarget(count) => {
            let tis = spec_with_slot(g.target_indices, g.sub_action_index as int);
            let tis2 = tis.update(
                g.sub_action_index as int,
                tis[g.sub_action_index as int].push(g.possible_targets[g.target_index as int]),
            );
            if g.target_count + 1 == count {
                TargetsOutcomeView::Next(
                    GetSubActionView {
                        combatants: g.combatants,
                        turn_order: g.turn_order,
                        turn_order_iterator: g.turn_order_iterator,
                        source_index: g.source_index,
                        action_index: g.action_index,
                        sub_action_index: (g.sub_action_index + 1) as usize,
                        target_indices: tis2,
                    },
                )
            } else {
                TargetsOutcomeView::More(
                    GetTargetsView {
                        target_indices: tis2,
                        target_count: (g.target_count + 1) as usize,
                        ..g
                    },
                )
            }
        },
    }
}

/// `ApplyAction -> PostTurn`: apply every sub-action's effects to its
/// selected targets, in order.
pub open spec fn spec_apply_action_advance(
    a: ApplyActionView,
    catalog: Seq<ActionView>,
) -> PostTurnView {
    let action = spec_action_at(catalog, a.combatants, a.source_index as int, a.action_index as int);
    PostTurnView {
        combatants: spec_apply_sub_actions(
            a.combatants,
            a.source_index as int,
            action.sub_actions,
            a.target_indices,
            a.target_indices.len() as int,
        ),
        turn_order: a.turn_order,
        turn_order_iterator: a.turn_order_iterator,
        source_index: a.source_index,
    }
}

/// `PostTurn -> PreTurn`: re-apply the acting combatant's stored
/// status-effect damage values in list order, then remove every expired
/// modifier and status effect.
pub open spec fn spec_post_turn_advance(p: PostTurnView) -> PreTurnView {
    let src = p.source_index as int;
    let c = p.combatants[src];
    let ticked = spec_reapply_status(c, c.status_effects.len() as int);
    PreTurnView {
        combatants: p.combatants.update(src, spec_cleanup_combatant(ticked)),
        turn_order: p.turn_order,
        turn_order_iterator: p.turn_order_iterator,
    }
}

// --- Executable transitions ---------------------------------------------

impl PreTurn {
    /// Advance to `GetAction`: select the next acting combatant and run its
    /// pre-turn lifetime decrements.
    pub fn advance(self) -> (r: GetAction)
        requires
            self@.turn_order.len() == self@.combatants.len(),
            self@.turn_order.len() > 0,
            self@.turn_order_iterator < self@.turn_order.len(),
            forall|i: int| 0 <= i < self@.turn_order.len() ==> (#[trigger] self@.turn_order[i])
                < self@.combatants.len(),
            forall|i: int| 0 <= i < self@.combatants.len() ==> (#[trigger] self@.combatants[i]).wf(),
        ensures
            r@ == spec_pre_turn_advance(self@),
    {
        let ghost p = self@;
        let PreTurn { mut combatants, turn_order, turn_order_iterator } = self;
        let source_index = turn_order[turn_order_iterator];
        let n = turn_order.len();
        let next_iterator = (turn_order_iterator + 1) % n;

        let mut c = placeholder_combatant();
        combatants.set_and_swap(source_index, &mut c);
        proof {
            assert(c@ == p.combatants[source_index as int]);
        }
        decrement_lifetimes(&mut c);
        combatants.set_and_swap(source_index, &mut c);
        proof {
            assert(roster_view(combatants@) =~= spec_pre_turn_advance(p).combatants);
        }
        GetAction {
            combatants,
            turn_order,
            turn_order_iterator: next_iterator,
            source_index,
            action_index: 0,
        }
    }
}

impl GetAction {
    /// Move the action cursor cyclically over the acting combatant's
    /// actions.
    pub fn transform(self, input: Input) -> (r: Self)
        requires
            self@.source_index < self@.combatants.len(),
            self@.action_index < self@.combatants[self@.source_index as int].actions.len(),
        ensures
            r@ == spec_transform_get_action(self@, input),
    {
        let ghost g = self@;
        let len = self.combatants[self.source_index].actions.len();
        let next = match input {
            Input::Next => (self.action_index + 1) % len,
            Input::Previous => if self.action_index == 0 {
                len - 1
            } else {
                self.action_index - 1
            },
            _ => self.action_index,
        };
        let GetAction { combatants, turn_order, turn_order_iterator, source_index, action_index: _ } = self;
        let r = GetAction { combatants, turn_order, turn_order_iterator, source_index, action_index: next };
        proof {
            assert(r@ =~= spec_transform_get_action(g, input));
        }
        r
    }
}

impl GetAction {
    /// Confirm the action under the cursor and move on to its first
    /// sub-action.
    pub fn confirm(self) -> (r: GetSubAction)
        ensures
            r@ == spec_confirm_action(self@),
    {
        let ghost g = self@;
        let GetAction { combatants, turn_order, turn_order_iterator, source_index, action_index } = self;
        let r = GetSubAction {
            combatants,
            turn_order,
            turn_order_iterator,
            source_index,
            action_index,
            sub_action_index: 0,
            target_indices: Vec::new(),
        };
        proof {
            assert(r@.target_indices =~= spec_confirm_action(g).target_indices);
            assert(r@ =~= spec_confirm_action(g));
        }
        r
    }
}

impl GetTargets {
    /// Move the target cursor cyclically over the eligible targets.
    pub fn transform(self, input: Input) -> (r: Self)
        requires
            self@.possible_targets.len() > 0,
            self@.target_index < self@.possible_targets.len(),
        ensures
            r@ == spec_transform_get_targets(self@, input),
    {
        let ghost g = self@;
        let len = self.possible_targets.len();
        let next = match input {
            Input::Next => (self.target_index + 1) % len,
            Input::Previous => if self.target_index == 0 {
                len - 1
            } else {
                self.target_index - 1
            },
            _ => self.target_index,
        };
        let GetTargets {
            combatants,
            turn_order,
            turn_order_iterator,
            source_index,
            action_index,
            sub_action_index,
            target_indices,
            possible_targets,
            target_index: _,
            target_count,
        } = self;
        let r = GetTargets {
            combatants,
            turn_order,
            turn_order_iterator,
            source_index,
            action_index,
            sub_action_index,
            target_indices,
            possible_targets,
            target_index: next,
            target_count,
        };
        proof {
            assert(r@ =~= spec_transform_get_targets(g, input));
        }
        r
    }
}

/// Where the machine goes after `GetSubAction`: to target collection or to
/// application.
#[derive(Debug)]
pub enum SubActionOutcome {
    Targets(GetTargets),
    Apply(ApplyAction),
}

impl View for SubActionOutcome {
    type V = SubActionOutcomeView;

    open spec fn view(&self) -> SubActionOutcomeView {
        match self {
            SubActionOutcome::Targets(t) => SubActionOutcomeView::Targets(t@),
            SubActionOutcome::Apply(a) => SubActionOutcomeView::Apply(a@),
        }
    }
}

impl GetSubAction {
    /// Resolve the current sub-action's eligible targets, skipping
    /// sub-actions nobody qualifies for, or conclude the action is ready to
    /// apply.
    pub fn advance(self, catalog: &Vec<Action>) -> (r: SubActionOutcome)
        requires
            self@.wf(catalog_view(catalog@)),
        ensures
            r@ == spec_advance_sub_action(self@, catalog_view(catalog@)),
    {
        let ghost cat = catalog_view(catalog@);
        let ghost start = self@;
        let GetSubAction {
            combatants,
            turn_order,
            turn_order_iterator,
            source_index,
            action_index,
            mut sub_action_index,
            mut target_indices,
        } = self;
        let ghost total = spec_action_at(
            cat,
            start.combatants,
            start.source_index as int,
            start.action_index as int,
        ).sub_actions.len();
        loop
            invariant
                start == self@,
                cat == catalog_view(catalog@),
                total == spec_action_at(
                    cat,
                    start.combatants,
                    start.source_index as int,
                    start.action_index as int,
                ).sub_actions.len(),
                roster_view(combatants@) == start.combatants,
                turn_order@ == start.turn_order,
                turn_order_iterator == start.turn_order_iterator,
                source_index == start.source_index,
                action_index == start.action_index,
                source_index < combatants@.len(),
                action_index < combatants@[source_index as int]@.actions.len(),
                combatants@[source_index as int]@.actions[action_index as int] < cat.len(),
                sub_action_index <= total,
                spec_advance_sub_action_from(
                    start,
                    cat,
                    sub_action_index as int,
                    targets_view(target_indices@),
                ) == spec_advance_sub_action(start, cat),
            decreases total - sub_action_index,
        {
            proof {
                assert(roster_view(combatants@)[source_index as int] == combatants@[source_index as int]@);
                assert(cat.len() == catalog@.len());
            }
            let action = &catalog[combatants[source_index].actions[action_index]];
            proof {
                let id = start.combatants[start.source_index as int].actions[start.action_index as int];
                assert(cat[id as int] == catalog@[id as int]@);
                assert(action@ == spec_action_at(
                    cat,
                    start.combatants,
                    start.source_index as int,
                    start.action_index as int,
                ));
            }
            if sub_action_index >= action.sub_actions.len() {
                let r = SubActionOutcome::Apply(
                    ApplyAction {
                        combatants,
                        turn_order,
                        turn_order_iterator,
                        source_index,
                        action_index,
                        target_indices,
                    },
                );
                proof {
                    assert(r@ =~= spec_advance_sub_action(start, cat));
                }
                return r;
            }
            let possible_targets = resolve_targets(
                &combatants,
                source_index,
                &action.sub_actions[sub_action_index],
            );
            proof {
                assert(action.sub_actions@[sub_action_index as int]@ == action@.sub_actions[sub_action_index as int]);
            }
            if possible_targets.len() > 0 {
                let r = SubActionOutcome::Targets(
                    GetTargets {
                        combatants,
                        turn_order,
                        turn_order_iterator,
                        source_index,
                        action_index,
                        sub_action_index,
                        target_indices,
                        possible_targets,
                        target_index: 0,
                        target_count: 0,
                    },
                );
                proof {
                    assert(r@ =~= spec_advance_sub_action(start, cat));
                }
                return r;
            }
            let ghost tis_before = targets_view(target_indices@);
            target_indices.push(Vec::new());
            sub_action_index = sub_action_index + 1;
            proof {
                assert(targets_view(target_indices@) =~= tis_before.push(Seq::empty()));
            }
        }
    }
}

/// Where the machine goes after a confirm in `GetTargets`: on to the next
/// sub-action, or back for more targets of the same one.
#[derive(Debug)]
pub enum TargetsOutcome {
    Next(GetSubAction),
    More(GetTargets),
}

impl View for TargetsOutcome {
    type V = TargetsOutcomeView;

    open spec fn view(&self) -> TargetsOutcomeView {
        match self {
            TargetsOutcome::Next(s) => TargetsOutcomeView::Next(s@),
            TargetsOutcome::More(t) => TargetsOutcomeView::More(t@),
        }
    }
}

impl GetTargets {
    /// Confirm the target under the cursor (or, for an `All` scheme, every
    /// eligible target): record the selection and either advance to the
    /// next sub-action or wait for more targets of this one.
    pub fn confirm(self, catalog: &Vec<Action>) -> (r: TargetsOutcome)
        requires
            self@.wf(catalog_view(catalog@)),
        ensures
            r@ == spec_confirm_targets(self@, catalog_view(catalog@)),
    {
        let ghost cat = catalog_view(catalog@);
        let ghost g = self@;
        proof {
            assert(self.combatants@[self.source_index as int]@ == g.combatants[g.source_index as int]);
        }
        let action = &catalog[self.combatants[self.source_index].actions[self.action_index]];
        proof {
            assert(action@ == spec_action_at(cat, g.combatants, g.source_index as int, g.action_index as int));
            assert(action.sub_actions@[self.sub_action_index as int]@ == action@.sub_actions[g.sub_action_index as int]);
        }
        let scheme = action.sub_actions[self.sub_action_index].targeting_scheme;
        let subs_len = action.sub_actions.len();
        proof {
            assert(g.sub_action_index < subs_len);
        }
        let GetTargets {
            combatants,
            turn_order,
            turn_order_iterator,
            source_index,
            action_index,
            sub_action_index,
            mut target_indices,
            possible_targets,
            target_index,
            target_count,
        } = self;
        match scheme {
            TargetingScheme::All => {
                let ghost tis_before = targets_view(target_indices@);
                target_indices.push(possible_targets);
                let r = TargetsOutcome::Next(
                    GetSubAction {
                        combatants,
                        turn_order,
                        turn_order_iterator,
                        source_index,
                        action_index,
                        sub_action_index: sub_action_index + 1,
                        target_indices,
                    },
                );
                proof {
                    assert(targets_view(target_indices@) =~= tis_before.push(g.possible_targets));
                    assert(r@ =~= spec_confirm_targets(g, cat));
                }
                r
            },
            TargetingScheme::SingleTarget | TargetingScheme::MultiTarget(_) => {
                let target = possible_targets[target_index];
                if target_indices.len() <= sub_action_index {
                    target_indices.push(Vec::new());
                }
                proof {
                    assert(targets_view(target_indices@) =~= spec_with_slot(g.target_indices, g.sub_action_index as int));
                }
                let ghost tis = targets_view(target_indices@);
                let mut row: Vec<usize> = Vec::new();
                target_indices.set_and_swap(sub_action_index, &mut row);
                row.push(target);
                target_indices.set_and_swap(sub_action_index, &mut row);
                proof {
                    assert(targets_view(target_indices@) =~= tis.update(
                        g.sub_action_index as int,
                        tis[g.sub_action_index as int].push(g.possible_targets[g.target_index as int]),
                    ));
                }
                match scheme {
                    TargetingScheme::MultiTarget(count) if target_count + 1 != count => {
                        let r = TargetsOutcome::More(
                            GetTargets {
                                combatants,
                                turn_order,
                                turn_order_iterator,
                                source_index,
                                action_index,
                                sub_action_index,
                                target_indices,
                                possible_targets,
                                target_index,
                                target_count: target_count + 1,
                            },
                        );
                        proof {
                            assert(r@ =~= spec_confirm_targets(g, cat));
                        }
                        r
                    },
                    _ => {
                        let r = TargetsOutcome::Next(
                            GetSubAction {
                                combatants,
                                turn_order,
                                turn_order_iterator,
                                source_index,
                                action_index,
                                sub_action_index: sub_action_index + 1,
                                target_indices,
                            },
                        );
                        proof {
                            assert(r@ =~= spec_confirm_targets(g, cat));
                        }
                        r
                    },
                }
            },
        }
    }
}

impl ApplyAction {
    /// Apply the chosen action: every sub-action's effects hit its selected
    /// targets, in order.
    pub fn advance(self, catalog: &Vec<Action>) -> (r: PostTurn)
        requires
            self@.wf(catalog_view(catalog@)),
            spec_catalog_wf(catalog_view(catalog@)),
        ensures
            r@ == spec_apply_action_advance(self@, catalog_view(catalog@)),
    {
        let ghost cat = catalog_view(catalog@);
        let ghost a = self@;
        proof {
            assert(self.combatants@[self.source_index as int]@ == a.combatants[a.source_index as int]);
        }
        let action = &catalog[self.combatants[self.source_index].actions[self.action_index]];
        proof {
            assert(action@ == spec_action_at(cat, a.combatants, a.source_index as int, a.action_index as int));
        }
        let ApplyAction {
            mut combatants,
            turn_order,
            turn_order_iterator,
            source_index,
            action_index,
            target_indices,
        } = self;
        apply_action(&mut combatants, source_index, action, &target_indices);
        let r = PostTurn { combatants, turn_order, turn_order_iterator, source_index };
        proof {
            assert(r@ =~= spec_apply_action_advance(a, cat));
        }
        r
    }
}

impl PostTurn {
    /// Close the turn: re-apply the acting combatant's stored status-effect
    /// damage, then remove expired modifiers and status effects.
    pub fn advance(self) -> (r: PreTurn)
        requires
            self@.source_index < self@.combatants.len(),
            self@.combatants[self@.source_index as int].wf(),
        ensures
            r@ == spec_post_turn_advance(self@),
    {
        let ghost p = self@;
        let PostTurn { mut combatants, turn_order, turn_order_iterator, source_index } = self;
        let mut c = placeholder_combatant();
        combatants.set_and_swap(source_index, &mut c);
        proof {
            assert(c@ == p.combatants[source_index as int]);
        }
        reapply_status_effects(&mut c);
        cleanup_expired(&mut c);
        combatants.set_and_swap(source_index, &mut c);
        proof {
            assert(roster_view(combatants@) =~= spec_post_turn_advance(p).combatants);
        }
        PreTurn { combatants, turn_order, turn_order_iterator }
    }
}

// --- The combat session ------------------------------------------------

/// How many of the first `k` combatants are still alive.
pub open spec fn spec_living_count(roster: Seq<CombatantView>, k: int) -> int
    decreases k,
{
    if k <= 0 {
        0
    } else {
        spec_living_count(roster, k - 1) + if roster[k - 1].hp > 0 {
            1int
        } else {
            0int
        }
    }
}

/// The living count never exceeds the number counted over.
pub proof fn lemma_living_count_le(roster: Seq<CombatantView>, k: int)
    ensures
        spec_living_count(roster, k) <= if k <= 0 {
            0int
        } else {
            k
        },
        spec_living_count(roster, k) >= 0,
    decreases k,
{
    if k > 0 {
        lemma_living_count_le(roster, k - 1);
    }
}

/// Count the combatants with `hp > 0`.
pub fn living_count(combatants: &Vec<Combatant>) -> (r: usize)
    ensures
        r as int == spec_living_count(roster_view(combatants@), combatants@.len() as int),
{
    let mut r: usize = 0;
    let mut i: usize = 0;
    while i < combatants.len()
        invariant
            i <= combatants@.len(),
            r <= i,
            r as int == spec_living_count(roster_view(combatants@), i as int),
        decreases combatants@.len() - i,
    {
        proof {
            assert(roster_view(combatants@)[i as int] == combatants@[i as int]@);
        }
        if combatants[i].hp > 0 {
            r = r + 1;
        }
        i += 1;
    }
    r
}

/// The whole state of one combat session: the read-only action catalog, the
/// current phase, and the cancel stack of prior interactive-phase
/// snapshots.
#[derive(Debug)]
pub struct CombatState {
    pub catalog: Vec<Action>,
    pub state_type: CombatStateType,
    pub state_buffer: Vec<CombatStateType>,
}

/// The model of the cancel stack.
pub open spec fn buffer_view(b: Seq<CombatStateType>) -> Seq<CombatStateTypeView> {
    b.map_values(|s: CombatStateType| s@)
}

/// The mathematical model of a combat session.
#[verifier::ext_equal]
pub ghost struct CombatStateView {
    pub catalog: Seq<ActionView>,
    pub state_type: CombatStateTypeView,
    pub state_buffer: Seq<CombatStateTypeView>,
}

impl View for CombatState {
    type V = CombatStateView;

    open spec fn view(&self) -> CombatStateView {
        CombatStateView {
            catalog: catalog_view(self.catalog@),
            state_type: self.state_type@,
            state_buffer: buffer_view(self.state_buffer@),
        }
    }
}

impl CombatStateView {
    /// A session fit to run: valid catalog data, a well-formed current
    /// phase, and only well-formed snapshots on the cancel stack.
    pub open spec fn wf(self) -> bool {
        &&& spec_catalog_wf(self.catalog)
        &&& phase_wf(self.state_type, self.catalog)
        &&& forall|i: int|
            0 <= i < self.state_buffer.len() ==> phase_wf(#[trigger] self.state_buffer[i], self.catalog)
    }
}

/// How far a phase is from the next interactive pause, driving the
/// auto-transition chain.
pub open spec fn spec_phase_rank(st: CombatStateTypeView) -> int {
    match st {
        CombatStateTypeView::GetAction(_) => 0,
        CombatStateTypeView::GetTargets(_) => 0,
        CombatStateTypeView::PreTurn(_) => 1,
        CombatStateTypeView::PostTurn(_) => 2,
        CombatStateTypeView::ApplyAction(_) => 3,
        CombatStateTypeView::GetSubAction(_) => 4,
    }
}

/// Run the auto-transition chain to the next interactive phase. A
/// `PreTurn` with at most one living combatant is the encounter's end: the
/// chain stops there and never advances again.
pub open spec fn spec_auto(st: CombatStateTypeView, catalog: Seq<ActionView>) -> CombatStateTypeView
    decreases spec_phase_rank(st),
{
    match st {
        CombatStateTypeView::PreTurn(p) => if spec_living_count(
            p.combatants,
            p.combatants.len() as int,
        ) <= 1 {
            st
        } else {
            spec_auto(CombatStateTypeView::GetAction(spec_pre_turn_advance(p)), catalog)
        },
        CombatStateTypeView::GetSubAction(s) => match spec_advance_sub_action(s, catalog) {
            SubActionOutcomeView::Targets(t) => CombatStateTypeView::GetTargets(t),
            SubActionOutcomeView::Apply(a) => spec_auto(CombatStateTypeView::ApplyAction(a), catalog),
        },
        CombatStateTypeView::ApplyAction(a) => spec_auto(
            CombatStateTypeView::PostTurn(spec_apply_action_advance(a, catalog)),
            catalog,
        ),
        CombatStateTypeView::PostTurn(p) => spec_auto(
            CombatStateTypeView::PreTurn(spec_post_turn_advance(p)),
            catalog,
        ),
        _ => st,
    }
}

/// One buffered input against the session: `Select` confirms and pushes a
/// snapshot of the interactive phase it left (replacing the whole stack
/// when confirming an action, as a turn's first confirm); `Cancel` restores
/// the most recent snapshot and is a no-op on an empty stack; `Next` and
/// `Previous` move the cursor; `Unmapped` does nothing. Inputs reach only
/// the interactive phases.
pub open spec fn spec_apply_input(s: CombatStateView, input: Input) -> CombatStateView {
    match input {
        Input::Unmapped => s,
        Input::Select => match s.state_type {
            CombatStateTypeView::GetAction(g) => CombatStateView {
                state_type: CombatStateTypeView::GetSubAction(spec_confirm_action(g)),
                state_buffer: seq![CombatStateTypeView::GetAction(g)],
                ..s
            },
            CombatStateTypeView::GetTargets(g) => {
                let pushed = s.state_buffer.push(CombatStateTypeView::GetTargets(g));
                match spec_confirm_targets(g, s.catalog) {
                    TargetsOutcomeView::Next(n) => CombatStateView {
                        state_type: CombatStateTypeView::GetSubAction(n),
                        state_buffer: pushed,
                        ..s
                    },
                    TargetsOutcomeView::More(t) => CombatStateView {
                        state_type: CombatStateTypeView::GetTargets(t),
                        state_buffer: pushed,
                        ..s
                    },
                }
            },
            _ => s,
        },
        Input::Cancel => if s.state_buffer.len() > 0 {
            CombatStateView {
                state_type: s.state_buffer.last(),
                state_buffer: s.state_buffer.drop_last(),
                ..s
            }
        } else {
            s
        },
        Input::Next | Input::Previous => match s.state_type {
            CombatStateTypeView::GetAction(g) => CombatStateView {
                state_type: CombatStateTypeView::GetAction(spec_transform_get_action(g, input)),
                ..s
            },
            CombatStateTypeView::GetTargets(g) => CombatStateView {
                state_type: CombatStateTypeView::GetTargets(spec_transform_get_targets(g, input)),
                ..s
            },
            _ => s,
        },
    }
}

/// One discrete input step: apply the input, then run the auto-transition
/// chain to the next interactive pause.
pub open spec fn spec_step(s: CombatStateView, input: Input) -> CombatStateView {
    let s1 = spec_apply_input(s, input);
    CombatStateView { state_type: spec_auto(s1.state_type, s1.catalog), ..s1 }
}

/// The session after the first `k` of the tick's inputs.
pub open spec fn spec_run(s: CombatStateView, inputs: Seq<Input>, k: int) -> CombatStateView
    decreases k,
{
    if k <= 0 {
        s
    } else {
        spec_step(spec_run(s, inputs, k - 1), inputs[k - 1])
    }
}

/// One whole update tick: run the auto chain once, then process every
/// buffered input in order, each followed by its auto chain.
pub open spec fn spec_update(s: CombatStateView, inputs: Seq<Input>) -> CombatStateView {
    let s0 = CombatStateView { state_type: spec_auto(s.state_type, s.catalog), ..s };
    spec_run(s0, inputs, inputs.len() as int)
}

// --- Well-formedness is preserved by every transition -------------------

/// The pre-turn decrement changes only lifetimes: health, stats, actions
/// and well-formedness are kept.
pub proof fn lemma_decrement_combatant_wf(c: CombatantView)
    requires
        c.wf(),
    ensures
        spec_decrement_combatant(c).wf(),
        spec_decrement_combatant(c).actions == c.actions,
        spec_decrement_combatant(c).gender == c.gender,
{
}

pub proof fn lemma_pre_turn_advance_wf(p: PreTurnView, catalog: Seq<ActionView>)
    requires
        p.wf(catalog),
        p.turn_order.len() > 0,
    ensures
        spec_pre_turn_advance(p).wf(catalog),
{
    let g = spec_pre_turn_advance(p);
    let source = p.turn_order[p.turn_order_iterator as int];
    lemma_decrement_combatant_wf(p.combatants[source as int]);
    assert(encounter_roster_wf(g.combatants, catalog)) by {
        assert forall|i: int| 0 <= i < g.combatants.len() implies (#[trigger] g.combatants[i]).wf()
            && g.combatants[i].actions.len() >= 1 by {
            if i != source {
                assert(g.combatants[i] == p.combatants[i]);
            }
        }
        assert forall|i: int, j: int|
            0 <= i < g.combatants.len() && 0 <= j < g.combatants[i].actions.len() implies (
        #[trigger] g.combatants[i].actions[j]) < catalog.len() by {
            if i != source {
                assert(g.combatants[i] == p.combatants[i]);
            } else {
                assert(g.combatants[i].actions == p.combatants[i].actions);
            }
        }
    }
}

pub proof fn lemma_confirm_action_wf(g: GetActionView, catalog: Seq<ActionView>)
    requires
        g.wf(catalog),
    ensures
        spec_confirm_action(g).wf(catalog),
{
}

pub proof fn lemma_transform_get_action_wf(g: GetActionView, input: Input, catalog: Seq<ActionView>)
    requires
        g.wf(catalog),
    ensures
        spec_transform_get_action(g, input).wf(catalog),
{
}

pub proof fn lemma_transform_get_targets_wf(
    g: GetTargetsView,
    input: Input,
    catalog: Seq<ActionView>,
)
    requires
        g.wf(catalog),
    ensures
        spec_transform_get_targets(g, input).wf(catalog),
{
}

proof fn lemma_advance_sub_action_from_wf(
    s: GetSubActionView,
    catalog: Seq<ActionView>,
    idx: int,
    tis: Seq<Seq<usize>>,
)
    requires
        s.wf(catalog),
        spec_catalog_wf(catalog),
        s.sub_action_index <= idx <= spec_action_at(
            catalog,
            s.combatants,
            s.source_index as int,
            s.action_index as int,
        ).sub_actions.len(),
        tis.len() == idx,
        target_indices_wf(tis, s.combatants.len()),
    ensures
        match spec_advance_sub_action_from(s, catalog, idx, tis) {
            SubActionOutcomeView::Targets(t) => t.wf(catalog),
            SubActionOutcomeView::Apply(a) => a.wf(catalog),
        },
    decreases spec_action_at(
        catalog,
        s.combatants,
        s.source_index as int,
        s.action_index as int,
    ).sub_actions.len() - idx,
{
    let action = spec_action_at(catalog, s.combatants, s.source_index as int, s.action_index as int);
    let id = s.combatants[s.source_index as int].actions[s.action_index as int];
    assert(crate::actions::action_wf(catalog[id as int]));
    if idx < action.sub_actions.len() {
        assert(crate::actions::sub_action_wf(action.sub_actions[idx]));
        let possible = spec_possible_targets(
            action.sub_actions[idx].target_flags,
            s.combatants,
            s.source_index as int,
        );
        if possible.len() > 0 {
            let t = spec_advance_sub_action_from(s, catalog, idx, tis);
            crate::targeting::lemma_eligible_prefix_bounded(
                action.sub_actions[idx].target_flags,
                s.combatants,
                s.source_index as int,
                s.combatants.len() as int,
            );
            match t {
                SubActionOutcomeView::Targets(gt) => {
                    assert(gt.possible_targets == possible);
                    assert(forall|i: int|
                        0 <= i < gt.possible_targets.len() ==> (#[trigger] gt.possible_targets[i])
                            < s.combatants.len());
                    assert(gt.wf(catalog));
                },
                SubActionOutcomeView::Apply(_) => {},
            }
        } else {
            lemma_advance_sub_action_from_wf(s, catalog, idx + 1, tis.push(Seq::empty()));
            assert(target_indices_wf(tis.push(Seq::empty()), s.combatants.len())) by {
                assert forall|i: int, j: int|
                    0 <= i < tis.push(Seq::empty()).len() && 0 <= j < tis.push(Seq::empty())[i].len()
                    implies (#[trigger] tis.push(Seq::empty())[i][j]) < s.combatants.len() by {
                    if i < tis.len() {
                        assert(tis.push(Seq::empty())[i] == tis[i]);
                    }
                }
            }
        }
    }
}

pub proof fn lemma_advance_sub_action_wf(s: GetSubActionView, catalog: Seq<ActionView>)
    requires
        s.wf(catalog),
        spec_catalog_wf(catalog),
    ensures
        match spec_advance_sub_action(s, catalog) {
            SubActionOutcomeView::Targets(t) => t.wf(catalog),
            SubActionOutcomeView::Apply(a) => a.wf(catalog),
        },
{
    lemma_advance_sub_action_from_wf(s, catalog, s.sub_action_index as int, s.target_indices);
}

pub proof fn lemma_confirm_targets_wf(g: GetTargetsView, catalog: Seq<ActionView>)
    requires
        g.wf(catalog),
        spec_catalog_wf(catalog),
    ensures
        match spec_confirm_targets(g, catalog) {
            TargetsOutcomeView::Next(n) => n.wf(catalog),
            TargetsOutcomeView::More(t) => t.wf(catalog),
        },
{
    let action = spec_action_at(catalog, g.combatants, g.source_index as int, g.action_index as int);
    let id = g.combatants[g.source_index as int].actions[g.action_index as int];
    assert(crate::actions::action_wf(catalog[id as int]));
    assert(crate::actions::sub_action_wf(action.sub_actions[g.sub_action_index as int]));
    let n = g.combatants.len();
    match action.sub_actions[g.sub_action_index as int].targeting_scheme {
        TargetingScheme::All => {
            let tis2 = g.target_indices.push(g.possible_targets);
            assert forall|i: int, j: int| 0 <= i < tis2.len() && 0 <= j < tis2[i].len() implies (
            #[trigger] tis2[i][j]) < n by {
                if i < g.target_indices.len() {
                    assert(tis2[i] == g.target_indices[i]);
                } else {
                    assert(tis2[i] == g.possible_targets);
                }
            }
        },
        TargetingScheme::SingleTarget | TargetingScheme::MultiTarget(_) => {
            let tis = spec_with_slot(g.target_indices, g.sub_action_index as int);
            let tis2 = tis.update(
                g.sub_action_index as int,
                tis[g.sub_action_index as int].push(g.possible_targets[g.target_index as int]),
            );
            assert forall|i: int, j: int| 0 <= i < tis.len() && 0 <= j < tis[i].len() implies (
            #[trigger] tis[i][j]) < n by {
                if i < g.target_indices.len() {
                    assert(tis[i] == g.target_indices[i]);
                }
            }
            assert forall|i: int, j: int| 0 <= i < tis2.len() && 0 <= j < tis2[i].len() implies (
            #[trigger] tis2[i][j]) < n by {
                if i != g.sub_action_index as int {
                    assert(tis2[i] == tis[i]);
                    assert(tis[i][j] < n);
                } else {
                    let row = tis[g.sub_action_index as int];
                    if j < row.len() {
                        assert(tis2[i][j] == row[j]);
                        assert(row[j] < n);
                    } else {
                        assert(tis2[i][j] == g.possible_targets[g.target_index as int]);
                    }
                }
            }
        },
    }
}

pub proof fn lemma_apply_action_advance_wf(a: ApplyActionView, catalog: Seq<ActionView>)
    requires
        a.wf(catalog),
        spec_catalog_wf(catalog),
    ensures
        spec_apply_action_advance(a, catalog).wf(catalog),
{
    let action = spec_action_at(catalog, a.combatants, a.source_index as int, a.action_index as int);
    crate::engine::lemma_apply_sub_actions_preserves(
        a.combatants,
        a.source_index as int,
        action.sub_actions,
        a.target_indices,
        a.target_indices.len() as int,
    );
    let p = spec_apply_action_advance(a, catalog);
    assert(encounter_roster_wf(p.combatants, catalog)) by {
        assert forall|i: int, j: int|
            0 <= i < p.combatants.len() && 0 <= j < p.combatants[i].actions.len() implies (
        #[trigger] p.combatants[i].actions[j]) < catalog.len() by {
            assert(p.combatants[i].actions == a.combatants[i].actions);
        }
    }
}

/// Re-applying stored status damage keeps a combatant well-formed.
pub proof fn lemma_reapply_status_wf(c: CombatantView, k: int)
    requires
        c.wf(),
    ensures
        spec_reapply_status(c, k).wf(),
    decreases k,
{
    if k > 0 {
        lemma_reapply_status_wf(c, k - 1);
        crate::engine::lemma_process_damage_wf(
            spec_reapply_status(c, k - 1),
            c.status_effects[k - 1].aspect,
            c.status_effects[k - 1].value,
        );
    }
}

pub proof fn lemma_post_turn_advance_wf(p: PostTurnView, catalog: Seq<ActionView>)
    requires
        p.wf(catalog),
    ensures
        spec_post_turn_advance(p).wf(catalog),
{
    let src = p.source_index as int;
    let c = p.combatants[src];
    lemma_reapply_status_wf(c, c.status_effects.len() as int);
    crate::engine::lemma_reapply_status_frame(c, c.status_effects.len() as int);
    let ticked = spec_reapply_status(c, c.status_effects.len() as int);
    let cleaned = spec_cleanup_combatant(ticked);
    assert(cleaned.wf());
    assert(cleaned.actions == c.actions);
    let r = spec_post_turn_advance(p);
    assert(encounter_roster_wf(r.combatants, catalog)) by {
        assert forall|i: int| 0 <= i < r.combatants.len() implies (#[trigger] r.combatants[i]).wf()
            && r.combatants[i].actions.len() >= 1 by {
            if i != src {
                assert(r.combatants[i] == p.combatants[i]);
            }
        }
        assert forall|i: int, j: int|
            0 <= i < r.combatants.len() && 0 <= j < r.combatants[i].actions.len() implies (
        #[trigger] r.combatants[i].actions[j]) < catalog.len() by {
            if i != src {
                assert(r.combatants[i] == p.combatants[i]);
            } else {
                assert(r.combatants[i].actions == p.combatants[i].actions);
            }
        }
    }
}

/// The auto-transition chain preserves phase well-formedness.
pub proof fn lemma_auto_wf(st: CombatStateTypeView, catalog: Seq<ActionView>)
    requires
        phase_wf(st, catalog),
        spec_catalog_wf(catalog),
    ensures
        phase_wf(spec_auto(st, catalog), catalog),
    decreases spec_phase_rank(st),
{
    match st {
        CombatStateTypeView::PreTurn(p) => {
            if spec_living_count(p.combatants, p.combatants.len() as int) > 1 {
                lemma_living_count_le(p.combatants, p.combatants.len() as int);
                lemma_pre_turn_advance_wf(p, catalog);
                lemma_auto_wf(CombatStateTypeView::GetAction(spec_pre_turn_advance(p)), catalog);
            }
        },
        CombatStateTypeView::GetSubAction(s) => {
            lemma_advance_sub_action_wf(s, catalog);
            match spec_advance_sub_action(s, catalog) {
                SubActionOutcomeView::Targets(_) => {},
                SubActionOutcomeView::Apply(a) => {
                    lemma_auto_wf(CombatStateTypeView::ApplyAction(a), catalog);
                },
            }
        },
        CombatStateTypeView::ApplyAction(a) => {
            lemma_apply_action_advance_wf(a, catalog);
            lemma_auto_wf(CombatStateTypeView::PostTurn(spec_apply_action_advance(a, catalog)), catalog);
        },
        CombatStateTypeView::PostTurn(p) => {
            lemma_post_turn_advance_wf(p, catalog);
            lemma_auto_wf(CombatStateTypeView::PreTurn(spec_post_turn_advance(p)), catalog);
        },
        _ => {},
    }
}

/// Applying one input preserves session well-formedness.
pub proof fn lemma_apply_input_wf(s: CombatStateView, input: Input)
    requires
        s.wf(),
    ensures
        spec_apply_input(s, input).wf(),
{
    let r = spec_apply_input(s, input);
    match input {
        Input::Select => match s.state_type {
            CombatStateTypeView::GetAction(g) => {
                lemma_confirm_action_wf(g, s.catalog);
            },
            CombatStateTypeView::GetTargets(g) => {
                lemma_confirm_targets_wf(g, s.catalog);
                assert forall|i: int| 0 <= i < r.state_buffer.len() implies phase_wf(
                    #[trigger] r.state_buffer[i],
                    s.catalog,
                ) by {
                    if i < s.state_buffer.len() {
                        assert(r.state_buffer[i] == s.state_buffer[i]);
                    }
                }
            },
            _ => {},
        },
        Input::Cancel => {
            if s.state_buffer.len() > 0 {
                assert(phase_wf(s.state_buffer.last(), s.catalog));
                assert forall|i: int| 0 <= i < r.state_buffer.len() implies phase_wf(
                    #[trigger] r.state_buffer[i],
                    s.catalog,
                ) by {
                    assert(r.state_buffer[i] == s.state_buffer[i]);
                }
            }
        },
        Input::Next | Input::Previous => match s.state_type {
            CombatStateTypeView::GetAction(g) => {
                lemma_transform_get_action_wf(g, input, s.catalog);
            },
            CombatStateTypeView::GetTargets(g) => {
                lemma_transform_get_targets_wf(g, input, s.catalog);
            },
            _ => {},
        },
        Input::Unmapped => {},
    }
}

/// One whole input step preserves session well-formedness.
pub proof fn lemma_step_wf(s: CombatStateView, input: Input)
    requires
        s.wf(),
    ensures
        spec_step(s, input).wf(),
{
    lemma_apply_input_wf(s, input);
    lemma_auto_wf(spec_apply_input(s, input).state_type, s.catalog);
}

// --- Session laws --------------------------------------------------------

/// The turn order a phase carries.
pub open spec fn phase_turn_order(st: CombatStateTypeView) -> Seq<usize> {
    match st {
        CombatStateTypeView::PreTurn(s) => s.turn_order,
        CombatStateTypeView::GetAction(s) => s.turn_order,
        CombatStateTypeView::GetSubAction(s) => s.turn_order,
        CombatStateTypeView::GetTargets(s) => s.turn_order,
        CombatStateTypeView::ApplyAction(s) => s.turn_order,
        CombatStateTypeView::PostTurn(s) => s.turn_order,
    }
}

proof fn lemma_advance_sub_action_from_turn_order(
    s: GetSubActionView,
    catalog: Seq<ActionView>,
    idx: int,
    tis: Seq<Seq<usize>>,
)
    ensures
        match spec_advance_sub_action_from(s, catalog, idx, tis) {
            SubActionOutcomeView::Targets(t) => t.turn_order == s.turn_order,
            SubActionOutcomeView::Apply(a) => a.turn_order == s.turn_order,
        },
    decreases spec_action_at(
        catalog,
        s.combatants,
        s.source_index as int,
        s.action_index as int,
    ).sub_actions.len() - idx,
{
    let action = spec_action_at(catalog, s.combatants, s.source_index as int, s.action_index as int);
    if idx < action.sub_actions.len() {
        let possible = spec_possible_targets(
            action.sub_actions[idx].target_flags,
            s.combatants,
            s.source_index as int,
        );
        if possible.len() == 0 {
            lemma_advance_sub_action_from_turn_order(s, catalog, idx + 1, tis.push(Seq::empty()));
        }
    }
}

/// Turn-order stability (law): the auto-transition chain never recomputes
/// the turn order — whatever phases a turn runs through, the permutation
/// fixed at encounter start is carried along unchanged.
pub proof fn lemma_auto_preserves_turn_order(st: CombatStateTypeView, catalog: Seq<ActionView>)
    ensures
        phase_turn_order(spec_auto(st, catalog)) == phase_turn_order(st),
    decreases spec_phase_rank(st),
{
    match st {
        CombatStateTypeView::PreTurn(p) => {
            if spec_living_count(p.combatants, p.combatants.len() as int) > 1 {
                lemma_auto_preserves_turn_order(
                    CombatStateTypeView::GetAction(spec_pre_turn_advance(p)),
                    catalog,
                );
            }
        },
        CombatStateTypeView::GetSubAction(s) => {
            lemma_advance_sub_action_from_turn_order(s, catalog, s.sub_action_index as int, s.target_indices);
            match spec_advance_sub_action(s, catalog) {
                SubActionOutcomeView::Targets(_) => {},
                SubActionOutcomeView::Apply(a) => {
                    lemma_auto_preserves_turn_order(CombatStateTypeView::ApplyAction(a), catalog);
                },
            }
        },
        CombatStateTypeView::ApplyAction(a) => {
            lemma_auto_preserves_turn_order(
                CombatStateTypeView::PostTurn(spec_apply_action_advance(a, catalog)),
                catalog,
            );
        },
        CombatStateTypeView::PostTurn(p) => {
            lemma_auto_preserves_turn_order(
                CombatStateTypeView::PreTurn(spec_post_turn_advance(p)),
                catalog,
            );
        },
        _ => {},
    }
}

/// Every input but a history-restoring `Cancel` also carries the turn
/// order along unchanged.
pub proof fn lemma_input_preserves_turn_order(s: CombatStateView, input: Input)
    requires
        input != Input::Cancel,
    ensures
        phase_turn_order(spec_step(s, input).state_type) == phase_turn_order(s.state_type),
{
    lemma_auto_preserves_turn_order(spec_apply_input(s, input).state_type, s.catalog);
}

/// Cancel round-trip (law): from an interactive phase, a `Select` followed
/// by a `Cancel` restores exactly the phase `Select` left — cursor
/// positions, collected targets and roster included.
pub proof fn lemma_cancel_round_trip(s: CombatStateView)
    requires
        s.wf(),
        s.state_type matches CombatStateTypeView::GetAction(_) || s.state_type
            matches CombatStateTypeView::GetTargets(_),
    ensures
        spec_update(s, seq![Input::Select, Input::Cancel]).state_type == s.state_type,
{
    let inputs = seq![Input::Select, Input::Cancel];
    let s0 = CombatStateView { state_type: spec_auto(s.state_type, s.catalog), ..s };
    assert(spec_auto(s.state_type, s.catalog) == s.state_type);
    assert(s0 =~= s);
    let r1 = spec_run(s0, inputs, 1);
    assert(spec_run(s0, inputs, 0) == s0);
    assert(r1 == spec_step(s0, inputs[0]));
    let s1 = spec_apply_input(s, Input::Select);
    assert(s1.state_buffer.len() > 0);
    assert(s1.state_buffer.last() == s.state_type);
    assert(r1.state_buffer == s1.state_buffer);
    let r2 = spec_run(s0, inputs, 2);
    assert(r2 == spec_step(r1, Input::Cancel));
    let s2 = spec_apply_input(r1, Input::Cancel);
    assert(s2.state_type == s.state_type);
    assert(spec_auto(s2.state_type, s.catalog) == s.state_type);
}

/// Multi-target completion (law): a `MultiTarget(count)` sub-action leaves
/// `GetTargets` exactly on the confirm that records its `count`-th target;
/// any earlier confirm stays in `GetTargets`, with one more target
/// recorded.
pub proof fn lemma_multi_target_completion(
    g: GetTargetsView,
    catalog: Seq<ActionView>,
    count: usize,
)
    requires
        g.wf(catalog),
        spec_action_at(
            catalog,
            g.combatants,
            g.source_index as int,
            g.action_index as int,
        ).sub_actions[g.sub_action_index as int].targeting_scheme == TargetingScheme::MultiTarget(
            count,
        ),
    ensures
        (spec_confirm_targets(g, catalog) matches TargetsOutcomeView::Next(_)) <==> g.target_count
            + 1 == count,
        spec_confirm_targets(g, catalog) matches TargetsOutcomeView::More(t) ==> t.target_count
            == g.target_count + 1,
{
}

proof fn lemma_halted_run(s: CombatStateView, inputs: Seq<Input>, k: int)
    requires
        s.state_type matches CombatStateTypeView::PreTurn(p) && spec_living_count(
            p.combatants,
            p.combatants.len() as int,
        ) <= 1,
        s.state_buffer.len() == 0,
    ensures
        spec_run(s, inputs, k) == s,
    decreases k,
{
    assert(spec_auto(s.state_type, s.catalog) == s.state_type);
    if k > 0 {
        lemma_halted_run(s, inputs, k - 1);
        let input = inputs[k - 1];
        assert(spec_apply_input(s, input) == s);
        assert(spec_step(s, input) =~= s);
    }
}

/// Termination (law): an encounter resting between turns with at most one
/// living combatant, and no snapshots left to restore, is halted for good:
/// no input sequence moves it at all.
pub proof fn lemma_halted_encounter_stays(s: CombatStateView, inputs: Seq<Input>)
    requires
        s.state_type matches CombatStateTypeView::PreTurn(p) && spec_living_count(
            p.combatants,
            p.combatants.len() as int,
        ) <= 1,
        s.state_buffer.len() == 0,
    ensures
        spec_update(s, inputs) == s,
{
    assert(spec_auto(s.state_type, s.catalog) == s.state_type);
    assert((CombatStateView { state_type: spec_auto(s.state_type, s.catalog), ..s }) =~= s);
    lemma_halted_run(s, inputs, inputs.len() as int);
}

// --- The executable session driver --------------------------------------

/// Run the auto-transition chain until the next interactive phase, or until
/// the encounter has ended.
fn advance_auto(st: CombatStateType, catalog: &Vec<Action>) -> (r: CombatStateType)
    requires
        phase_wf(st@, catalog_view(catalog@)),
        spec_catalog_wf(catalog_view(catalog@)),
    ensures
        r@ == spec_auto(st@, catalog_view(catalog@)),
        phase_wf(r@, catalog_view(catalog@)),
{
    let ghost cat = catalog_view(catalog@);
    let ghost st0 = st@;
    let mut cur = st;
    loop
        invariant
            cat == catalog_view(catalog@),
            st0 == st@,
            spec_catalog_wf(cat),
            phase_wf(cur@, cat),
            spec_auto(cur@, cat) == spec_auto(st0, cat),
        decreases spec_phase_rank(cur@),
    {
        match cur {
            CombatStateType::PreTurn(state) => {
                if living_count(&state.combatants) <= 1 {
                    return CombatStateType::PreTurn(state);
                }
                proof {
                    lemma_living_count_le(state@.combatants, state@.combatants.len() as int);
                    lemma_pre_turn_advance_wf(state@, cat);
                }
                cur = CombatStateType::GetAction(state.advance());
            },
            CombatStateType::GetSubAction(state) => {
                proof {
                    lemma_advance_sub_action_wf(state@, cat);
                }
                cur = match state.advance(catalog) {
                    SubActionOutcome::Targets(t) => CombatStateType::GetTargets(t),
                    SubActionOutcome::Apply(a) => CombatStateType::ApplyAction(a),
                };
            },
            CombatStateType::ApplyAction(state) => {
                proof {
                    lemma_apply_action_advance_wf(state@, cat);
                }
                cur = CombatStateType::PostTurn(state.advance(catalog));
            },
            CombatStateType::PostTurn(state) => {
                proof {
                    lemma_post_turn_advance_wf(state@, cat);
                }
                cur = CombatStateType::PreTurn(state.advance());
            },
            CombatStateType::GetAction(state) => {
                return CombatStateType::GetAction(state);
            },
            CombatStateType::GetTargets(state) => {
                return CombatStateType::GetTargets(state);
            },
        }
    }
}

impl CombatState {
    /// Start an encounter: compute the turn order of the roster once, by
    /// descending effective Agility with ties in roster order, and rest in
    /// `PreTurn` with an empty cancel stack. The turn order is never
    /// recomputed afterwards, so later Agility changes do not reorder the
    /// remaining turns.
    pub fn new(combatants: Vec<Combatant>, catalog: Vec<Action>) -> (r: Self)
        requires
            encounter_roster_wf(roster_view(combatants@), catalog_view(catalog@)),
            spec_catalog_wf(catalog_view(catalog@)),
        ensures
            r@.wf(),
            r@.catalog == catalog_view(catalog@),
            r@.state_buffer == Seq::<CombatStateTypeView>::empty(),
            r@.state_type matches CombatStateTypeView::PreTurn(p) && p.combatants == roster_view(
                combatants@,
            ) && p.turn_order_iterator == 0 && crate::turn_order::spec_is_turn_order(
                p.turn_order,
                p.combatants,
            ),
    {
        proof {
            assert forall|i: int| 0 <= i < combatants@.len() implies (#[trigger] combatants@[i]@).wf() by {
                assert(roster_view(combatants@)[i] == combatants@[i]@);
            }
        }
        let turn_order = crate::turn_order::compute_turn_order(&combatants);
        let r = CombatState {
            catalog,
            state_type: CombatStateType::PreTurn(
                PreTurn { combatants, turn_order, turn_order_iterator: 0 },
            ),
            state_buffer: Vec::new(),
        };
        proof {
            assert(r@.state_buffer =~= Seq::<CombatStateTypeView>::empty());
        }
        r
    }

    /// One update tick: run the auto chain, then consume every buffered
    /// input in order, running the auto chain after each, as `spec_update`
    /// says.
    pub fn update(self, input_state: &InputState) -> (r: Self)
        requires
            self@.wf(),
        ensures
            r@ == spec_update(self@, input_state@),
            r@.wf(),
    {
        let ghost s0 = self@;
        let ghost inputs = input_state@;
        let CombatState { catalog, state_type, state_buffer } = self;
        let ghost cat = catalog_view(catalog@);
        let mut state_type = advance_auto(state_type, &catalog);
        let mut state_buffer = state_buffer;
        let ghost start = (CombatStateView { state_type: spec_auto(s0.state_type, cat), ..s0 });

        let mut i: usize = 0;
        while i < input_state.input_buffer.len()
            invariant
                i <= inputs.len(),
                inputs == input_state@,
                cat == catalog_view(catalog@),
                start == (CombatStateView { state_type: spec_auto(s0.state_type, cat), ..s0 }),
                start.wf(),
                (CombatStateView {
                    catalog: cat,
                    state_type: state_type@,
                    state_buffer: buffer_view(state_buffer@),
                }) == spec_run(start, inputs, i as int),
                (CombatStateView {
                    catalog: cat,
                    state_type: state_type@,
                    state_buffer: buffer_view(state_buffer@),
                }).wf(),
            decreases inputs.len() - i,
        {
            let ghost scur = (CombatStateView {
                catalog: cat,
                state_type: state_type@,
                state_buffer: buffer_view(state_buffer@),
            });
            proof {
                lemma_apply_input_wf(scur, inputs[i as int]);
            }
            let input = input_state.input_buffer[i];
            match input {
                Input::Unmapped => {},
                Input::Select => {
                    state_type = match state_type {
                        CombatStateType::GetAction(state) => {
                            let snapshot = state.clone();
                            let mut fresh: Vec<CombatStateType> = Vec::new();
                            fresh.push(CombatStateType::GetAction(snapshot));
                            state_buffer = fresh;
                            proof {
                                assert(buffer_view(state_buffer@) =~= spec_apply_input(
                                    scur,
                                    input,
                                ).state_buffer);
                            }
                            CombatStateType::GetSubAction(state.confirm())
                        },
                        CombatStateType::GetTargets(state) => {
                            let ghost buf0 = buffer_view(state_buffer@);
                            state_buffer.push(CombatStateType::GetTargets(state.clone()));
                            proof {
                                assert(buffer_view(state_buffer@) =~= buf0.push(
                                    CombatStateTypeView::GetTargets(state@),
                                ));
                            }
                            match state.confirm(&catalog) {
                                TargetsOutcome::Next(n) => CombatStateType::GetSubAction(n),
                                TargetsOutcome::More(t) => CombatStateType::GetTargets(t),
                            }
                        },
                        other => other,
                    };
                },
                Input::Cancel => {
                    let ghost buf0 = buffer_view(state_buffer@);
                    if let Some(prev) = state_buffer.pop() {
                        state_type = prev;
                        proof {
                            assert(buffer_view(state_buffer@) =~= buf0.drop_last());
                        }
                    }
                },
                Input::Next | Input::Previous => {
                    state_type = match state_type {
                        CombatStateType::GetAction(state) => CombatStateType::GetAction(
                            state.transform(input),
                        ),
                        CombatStateType::GetTargets(state) => CombatStateType::GetTargets(
                            state.transform(input),
                        ),
                        other => other,
                    };
                },
            }
            proof {
                assert((CombatStateView {
                    catalog: cat,
                    state_type: state_type@,
                    state_buffer: buffer_view(state_buffer@),
                }) =~= spec_apply_input(scur, inputs[i as int]));
            }
            state_type = advance_auto(state_type, &catalog);
            proof {
                assert((CombatStateView {
                    catalog: cat,
                    state_type: state_type@,
                    state_buffer: buffer_view(state_buffer@),
                }) =~= spec_step(scur, inputs[i as int]));
                lemma_step_wf(scur, inputs[i as int]);
            }
            i += 1;
        }
        let r = CombatState { catalog, state_type, state_buffer };
        proof {
            assert(inputs.len() <= usize::MAX);
            assert(r@ =~= spec_update(s0, inputs));
        }
        r
    }
}

} // verus!
