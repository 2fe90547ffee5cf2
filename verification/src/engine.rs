use vstd::prelude::*;
use vstd::pervasive::VecAdditionalExecFns;
use crate::actions::Action;
use crate::combatant::{Combatant, CombatantView, Modifier, roster_view, STAT_COUNT};
use crate::damage::StatusEffectEntry;
use crate::lifetime::Lifetime;
use crate::effects::{
    calculate_damage_value, process_damage, spec_damage_value, spec_process_damage, Effect,
    EffectSource, EffectSourceView,
};

verus! {

// --- Pre-turn bookkeeping: lifetime decrements -----------------------------

/// Status-effect entries after one pre-turn decrement.
pub open spec fn spec_decremented_status(s: Seq<StatusEffectEntry>) -> Seq<StatusEffectEntry> {
    s.map_values(
        |e: StatusEffectEntry| StatusEffectEntry { lifetime: e.lifetime.spec_decremented(), ..e },
    )
}

/// A modifier list after one pre-turn decrement.
pub open spec fn spec_decremented_modifiers(row: Seq<Modifier>) -> Seq<Modifier> {
    row.map_values(|m: Modifier| Modifier { lifetime: m.lifetime.spec_decremented(), ..m })
}

/// A combatant at the start of its own turn: every `Active` lifetime on its
/// status effects and modifiers counts down by one, saturating at zero;
/// nothing else changes. In particular, modifier values and stored
/// status-effect damage values are untouched.
pub open spec fn spec_decrement_combatant(c: CombatantView) -> CombatantView {
    CombatantView {
        status_effects: spec_decremented_status(c.status_effects),
        modifiers: c.modifiers.map_values(|row: Seq<Modifier>| spec_decremented_modifiers(row)),
        ..c
    }
}

fn decremented_status_list(v: &Vec<StatusEffectEntry>) -> (r: Vec<StatusEffectEntry>)
    ensures
        r@ == spec_decremented_status(v@),
{
    let mut r: Vec<StatusEffectEntry> = Vec::new();
    let mut i: usize = 0;
    while i < v.len()
        invariant
            i <= v.len(),
            r@.len() == i,
            forall|j: int| 0 <= j < i ==> r@[j] == spec_decremented_status(v@)[j],
        decreases v.len() - i,
    {
        let e = v[i];
        r.push(StatusEffectEntry { aspect: e.aspect, value: e.value, lifetime: e.lifetime.decremented() });
        i += 1;
    }
    proof {
        assert(r@ =~= spec_decremented_status(v@));
    }
    r
}

fn decremented_modifier_list(v: &Vec<Modifier>) -> (r: Vec<Modifier>)
    ensures
        r@ == spec_decremented_modifiers(v@),
{
    let mut r: Vec<Modifier> = Vec::new();
    let mut i: usize = 0;
    while i < v.len()
        invariant
            i <= v.len(),
            r@.len() == i,
            forall|j: int| 0 <= j < i ==> r@[j] == spec_decremented_modifiers(v@)[j],
        decreases v.len() - i,
    {
        let m = v[i];
        r.push(Modifier { value: m.value, lifetime: m.lifetime.decremented() });
        i += 1;
    }
    proof {
        assert(r@ =~= spec_decremented_modifiers(v@));
    }
    r
}

/// Count down every `Active` lifetime on this combatant by one, saturating
/// at zero; `Permanent` entries are untouched.
pub fn decrement_lifetimes(c: &mut Combatant)
    requires
        old(c)@.wf(),
    ensures
        final(c)@ == spec_decrement_combatant(old(c)@),
        final(c)@.wf(),
{
    c.status_effects = decremented_status_list(&c.status_effects);
    let mut stat: usize = 0;
    while stat < c.modifiers.len()
        invariant
            stat <= c.modifiers.len(),
            c.modifiers@.len() == old(c).modifiers@.len(),
            forall|j: int|
                0 <= j < stat ==> c.modifiers@[j]@ == spec_decremented_modifiers(
                    #[trigger] old(c).modifiers@[j]@,
                ),
            forall|j: int| stat <= j < c.modifiers@.len() ==> c.modifiers@[j]@ == #[trigger] old(
                c,
            ).modifiers@[j]@,
            c.name@ == old(c).name@,
            c.gender == old(c).gender,
            c.hp == old(c).hp,
            c.hp_max == old(c).hp_max,
            c.stats@ == old(c).stats@,
            c.status_effects@ == spec_decremented_status(old(c).status_effects@),
            c.actions@ == old(c).actions@,
        decreases c.modifiers.len() - stat,
    {
        let row = decremented_modifier_list(&c.modifiers[stat]);
        c.modifiers.set(stat, row);
        stat += 1;
    }
    proof {
        assert(c@.modifiers =~= spec_decrement_combatant(old(c)@).modifiers);
        assert(c@ =~= spec_decrement_combatant(old(c)@));
    }
}

// --- Post-turn bookkeeping: status reapplication and cleanup ---------------

/// The combatant after re-applying its first `k` stored status-effect damage
/// values, in list order. Each tick goes through the full damage arithmetic
/// with the value stored at application time; nothing is recomputed from any
/// source.
pub open spec fn spec_reapply_status(c: CombatantView, k: int) -> CombatantView
    decreases k,
{
    if k <= 0 {
        c
    } else {
        let pre = spec_reapply_status(c, k - 1);
        spec_process_damage(pre, c.status_effects[k - 1].aspect, c.status_effects[k - 1].value)
    }
}

/// Re-applying status damage changes only `hp`.
pub proof fn lemma_reapply_status_frame(c: CombatantView, k: int)
    ensures
        spec_reapply_status(c, k) == (CombatantView { hp: spec_reapply_status(c, k).hp, ..c }),
    decreases k,
{
    if k > 0 {
        lemma_reapply_status_frame(c, k - 1);
    }
}

/// Re-apply every stored status-effect damage value to this combatant, in
/// list order.
pub fn reapply_status_effects(c: &mut Combatant)
    requires
        old(c)@.wf(),
    ensures
        final(c)@ == spec_reapply_status(old(c)@, old(c)@.status_effects.len() as int),
        final(c)@.wf(),
{
    let mut i: usize = 0;
    let n = c.status_effects.len();
    while i < n
        invariant
            i <= n,
            n == old(c)@.status_effects.len(),
            c@ == spec_reapply_status(old(c)@, i as int),
            c@.wf(),
            c@.status_effects == old(c)@.status_effects,
        decreases n - i,
    {
        proof {
            lemma_reapply_status_frame(old(c)@, i as int);
        }
        let e = c.status_effects[i];
        process_damage(c, e.aspect, e.value);
        proof {
            lemma_reapply_status_frame(old(c)@, i as int + 1);
        }
        i += 1;
    }
}

/// The status-effect entries below `k` that survive the post-turn cleanup:
/// everything whose lifetime has not expired, in order.
pub open spec fn spec_alive_status(s: Seq<StatusEffectEntry>, k: int) -> Seq<StatusEffectEntry>
    decreases k,
{
    if k <= 0 {
        Seq::empty()
    } else {
        let pre = spec_alive_status(s, k - 1);
        if !s[k - 1].lifetime.spec_expired() {
            pre.push(s[k - 1])
        } else {
            pre
        }
    }
}

/// The modifiers below `k` that survive the post-turn cleanup.
pub open spec fn spec_alive_modifiers(row: Seq<Modifier>, k: int) -> Seq<Modifier>
    decreases k,
{
    if k <= 0 {
        Seq::empty()
    } else {
        let pre = spec_alive_modifiers(row, k - 1);
        if !row[k - 1].lifetime.spec_expired() {
            pre.push(row[k - 1])
        } else {
            pre
        }
    }
}

/// The combatant after the post-turn cleanup: every status effect and
/// modifier whose lifetime is `Active(0)` is removed; everything else stays,
/// in order.
pub open spec fn spec_cleanup_combatant(c: CombatantView) -> CombatantView {
    CombatantView {
        status_effects: spec_alive_status(c.status_effects, c.status_effects.len() as int),
        modifiers: c.modifiers.map_values(
            |row: Seq<Modifier>| spec_alive_modifiers(row, row.len() as int),
        ),
        ..c
    }
}

/// No expired entry survives the cleanup.
pub proof fn lemma_alive_status_no_expired(s: Seq<StatusEffectEntry>, k: int)
    ensures
        forall|j: int|
            0 <= j < spec_alive_status(s, k).len() ==> !(#[trigger] spec_alive_status(s, k)[j]).lifetime.spec_expired(),
    decreases k,
{
    if k > 0 {
        lemma_alive_status_no_expired(s, k - 1);
        let pre = spec_alive_status(s, k - 1);
        let full = spec_alive_status(s, k);
        assert forall|j: int| 0 <= j < full.len() implies !full[j].lifetime.spec_expired() by {
            if j < pre.len() {
                assert(full[j] == pre[j]);
            }
        }
    }
}

/// Every entry that has not expired survives the cleanup.
pub proof fn lemma_alive_status_keeps(s: Seq<StatusEffectEntry>, k: int, j: int)
    requires
        0 <= j < k,
        !s[j].lifetime.spec_expired(),
    ensures
        spec_alive_status(s, k).contains(s[j]),
    decreases k,
{
    let full = spec_alive_status(s, k);
    if j == k - 1 {
        let pre = spec_alive_status(s, k - 1);
        assert(full[pre.len() as int] == s[j]);
    } else {
        lemma_alive_status_keeps(s, k - 1, j);
        let pre = spec_alive_status(s, k - 1);
        let w = choose|w: int| 0 <= w < pre.len() && pre[w] == s[j];
        assert(full[w] == s[j]);
    }
}

/// No expired modifier survives the cleanup.
pub proof fn lemma_alive_modifiers_no_expired(row: Seq<Modifier>, k: int)
    ensures
        forall|j: int|
            0 <= j < spec_alive_modifiers(row, k).len() ==> !(#[trigger] spec_alive_modifiers(row, k)[j]).lifetime.spec_expired(),
    decreases k,
{
    if k > 0 {
        lemma_alive_modifiers_no_expired(row, k - 1);
        let pre = spec_alive_modifiers(row, k - 1);
        let full = spec_alive_modifiers(row, k);
        assert forall|j: int| 0 <= j < full.len() implies !full[j].lifetime.spec_expired() by {
            if j < pre.len() {
                assert(full[j] == pre[j]);
            }
        }
    }
}

/// Every modifier that has not expired survives the cleanup.
pub proof fn lemma_alive_modifiers_keeps(row: Seq<Modifier>, k: int, j: int)
    requires
        0 <= j < k,
        !row[j].lifetime.spec_expired(),
    ensures
        spec_alive_modifiers(row, k).contains(row[j]),
    decreases k,
{
    let full = spec_alive_modifiers(row, k);
    if j == k - 1 {
        let pre = spec_alive_modifiers(row, k - 1);
        assert(full[pre.len() as int] == row[j]);
    } else {
        lemma_alive_modifiers_keeps(row, k - 1, j);
        let pre = spec_alive_modifiers(row, k - 1);
        let w = choose|w: int| 0 <= w < pre.len() && pre[w] == row[j];
        assert(full[w] == row[j]);
    }
}

fn alive_status_list(v: &Vec<StatusEffectEntry>) -> (r: Vec<StatusEffectEntry>)
    ensures
        r@ == spec_alive_status(v@, v@.len() as int),
{
    let mut r: Vec<StatusEffectEntry> = Vec::new();
    let mut i: usize = 0;
    while i < v.len()
        invariant
            i <= v.len(),
            r@ == spec_alive_status(v@, i as int),
        decreases v.len() - i,
    {
        let e = v[i];
        if !e.lifetime.expired() {
            r.push(e);
        }
        i += 1;
    }
    r
}

fn alive_modifier_list(v: &Vec<Modifier>) -> (r: Vec<Modifier>)
    ensures
        r@ == spec_alive_modifiers(v@, v@.len() as int),
{
    let mut r: Vec<Modifier> = Vec::new();
    let mut i: usize = 0;
    while i < v.len()
        invariant
            i <= v.len(),
            r@ == spec_alive_modifiers(v@, i as int),
        decreases v.len() - i,
    {
        let m = v[i];
        if !m.lifetime.expired() {
            r.push(m);
        }
        i += 1;
    }
    r
}

/// Remove every status effect and modifier whose lifetime has expired.
pub fn cleanup_expired(c: &mut Combatant)
    requires
        old(c)@.wf(),
    ensures
        final(c)@ == spec_cleanup_combatant(old(c)@),
        final(c)@.wf(),
{
    c.status_effects = alive_status_list(&c.status_effects);
    let mut stat: usize = 0;
    while stat < c.modifiers.len()
        invariant
            stat <= c.modifiers.len(),
            c.modifiers@.len() == old(c).modifiers@.len(),
            forall|j: int|
                0 <= j < stat ==> c.modifiers@[j]@ == spec_alive_modifiers(
                    #[trigger] old(c).modifiers@[j]@,
                    old(c).modifiers@[j]@.len() as int,
                ),
            forall|j: int| stat <= j < c.modifiers@.len() ==> c.modifiers@[j]@ == #[trigger] old(
                c,
            ).modifiers@[j]@,
            c.name@ == old(c).name@,
            c.gender == old(c).gender,
            c.hp == old(c).hp,
            c.hp_max == old(c).hp_max,
            c.stats@ == old(c).stats@,
            c.status_effects@ == spec_alive_status(
                old(c).status_effects@,
                old(c).status_effects@.len() as int,
            ),
            c.actions@ == old(c).actions@,
        decreases c.modifiers.len() - stat,
    {
        let row = alive_modifier_list(&c.modifiers[stat]);
        c.modifiers.set(stat, row);
        stat += 1;
    }
    proof {
        assert(c@.modifiers =~= spec_cleanup_combatant(old(c)@).modifiers);
        assert(c@ =~= spec_cleanup_combatant(old(c)@));
    }
}

/// Lifetime decrement and expiry (law): a modifier with one remaining turn
/// is expired by the owner's pre-turn decrement, and after the following
/// post-turn cleanup no expired modifier remains on that stat at all — it
/// never reaches a third turn. `Permanent` modifiers survive both steps.
pub proof fn lemma_modifier_lifetime_expiry(c: CombatantView, s: int, j: int)
    requires
        0 <= s < c.modifiers.len(),
        0 <= j < c.modifiers[s].len(),
        c.modifiers[s][j].lifetime == Lifetime::Active(1u32),
    ensures
        spec_decrement_combatant(c).modifiers[s][j].lifetime == Lifetime::Active(0u32),
        forall|k: int|
            0 <= k < spec_cleanup_combatant(spec_decrement_combatant(c)).modifiers[s].len()
                ==> (#[trigger] spec_cleanup_combatant(spec_decrement_combatant(c)).modifiers[s][k]).lifetime
                != Lifetime::Active(0u32),
{
    let d = spec_decrement_combatant(c);
    assert(d.modifiers[s] == spec_decremented_modifiers(c.modifiers[s]));
    assert(d.modifiers[s][j] == (Modifier {
        lifetime: c.modifiers[s][j].lifetime.spec_decremented(),
        ..c.modifiers[s][j]
    }));
    let cleaned = spec_cleanup_combatant(d);
    assert(cleaned.modifiers[s] == spec_alive_modifiers(d.modifiers[s], d.modifiers[s].len() as int));
    lemma_alive_modifiers_no_expired(d.modifiers[s], d.modifiers[s].len() as int);
    assert forall|k: int| 0 <= k < cleaned.modifiers[s].len() implies (#[trigger] cleaned.modifiers[s][k]).lifetime
        != Lifetime::Active(0u32) by {
        assert(!cleaned.modifiers[s][k].lifetime.spec_expired());
    }
}

/// A `Permanent` modifier is untouched by the pre-turn decrement and never
/// removed by the post-turn cleanup.
pub proof fn lemma_permanent_modifier_kept(c: CombatantView, s: int, j: int)
    requires
        0 <= s < c.modifiers.len(),
        0 <= j < c.modifiers[s].len(),
        c.modifiers[s][j].lifetime == Lifetime::Permanent,
    ensures
        spec_decrement_combatant(c).modifiers[s][j] == c.modifiers[s][j],
        spec_cleanup_combatant(spec_decrement_combatant(c)).modifiers[s].contains(c.modifiers[s][j]),
{
    let d = spec_decrement_combatant(c);
    assert(d.modifiers[s] == spec_decremented_modifiers(c.modifiers[s]));
    assert(d.modifiers[s][j] == c.modifiers[s][j]);
    lemma_alive_modifiers_keeps(d.modifiers[s], d.modifiers[s].len() as int, j);
    let cleaned = spec_cleanup_combatant(d);
    assert(cleaned.modifiers[s] == spec_alive_modifiers(d.modifiers[s], d.modifiers[s].len() as int));
}

/// The same expiry pipeline for status effects: one remaining turn means
/// expired after the decrement, and gone after the cleanup.
pub proof fn lemma_status_lifetime_expiry(c: CombatantView, j: int)
    requires
        0 <= j < c.status_effects.len(),
        c.status_effects[j].lifetime == Lifetime::Active(1u32),
    ensures
        spec_decrement_combatant(c).status_effects[j].lifetime == Lifetime::Active(0u32),
        forall|k: int|
            0 <= k < spec_cleanup_combatant(spec_decrement_combatant(c)).status_effects.len()
                ==> (#[trigger] spec_cleanup_combatant(spec_decrement_combatant(c)).status_effects[k]).lifetime
                != Lifetime::Active(0u32),
{
    let d = spec_decrement_combatant(c);
    assert(d.status_effects[j] == (StatusEffectEntry {
        lifetime: c.status_effects[j].lifetime.spec_decremented(),
        ..c.status_effects[j]
    }));
    let cleaned = spec_cleanup_combatant(d);
    lemma_alive_status_no_expired(d.status_effects, d.status_effects.len() as int);
    assert forall|k: int| 0 <= k < cleaned.status_effects.len() implies (#[trigger] cleaned.status_effects[k]).lifetime
        != Lifetime::Active(0u32) by {
        assert(!cleaned.status_effects[k].lifetime.spec_expired());
    }
}

// --- Effect application --------------------------------------------------

/// Every combatant of the roster is well-formed.
pub open spec fn roster_all_wf(roster: Seq<CombatantView>) -> bool {
    forall|i: int| 0 <= i < roster.len() ==> (#[trigger] roster[i]).wf()
}

/// The source context for applying an effect to `target_index` on behalf of
/// `source_index`: the target itself when the two coincide, the source
/// combatant otherwise.
pub open spec fn spec_effect_source(
    roster: Seq<CombatantView>,
    source_index: int,
    target_index: int,
) -> EffectSourceView {
    if source_index == target_index {
        EffectSourceView::Origin
    } else {
        EffectSourceView::Other(roster[source_index])
    }
}

/// The roster after applying one effect to one target.
///
/// Damage goes through the full damage arithmetic at once. A modifier is
/// appended to the target's list for its stat. A status effect has its
/// damage value computed once, here, from the source's current attack stat,
/// and the entry stores that value for all later ticks.
pub open spec fn spec_apply_effect(
    roster: Seq<CombatantView>,
    source_index: int,
    target_index: int,
    e: Effect,
) -> Seq<CombatantView> {
    let tgt = roster[target_index];
    let src = spec_effect_source(roster, source_index, target_index);
    match e {
        Effect::Damage(d) => roster.update(
            target_index,
            spec_process_damage(tgt, d.aspect, spec_damage_value(tgt, src, d.aspect, d.scaling)),
        ),
        Effect::Modifier(m, stat) => roster.update(
            target_index,
            CombatantView {
                modifiers: tgt.modifiers.update(
                    stat.spec_index(),
                    tgt.modifiers[stat.spec_index()].push(m),
                ),
                ..tgt
            },
        ),
        Effect::StatusEffect(se) => {
            let dv = spec_damage_value(tgt, src, se.aspect, se.scaling);
            roster.update(
                target_index,
                CombatantView {
                    status_effects: tgt.status_effects.push(
                        StatusEffectEntry { aspect: se.aspect, value: dv, lifetime: se.lifetime },
                    ),
                    ..tgt
                },
            )
        },
    }
}

/// The roster after applying the first `k` effects of a sub-action to one
/// target, in declaration order.
pub open spec fn spec_apply_effects(
    roster: Seq<CombatantView>,
    source_index: int,
    target_index: int,
    effects: Seq<Effect>,
    k: int,
) -> Seq<CombatantView>
    decreases k,
{
    if k <= 0 {
        roster
    } else {
        spec_apply_effect(
            spec_apply_effects(roster, source_index, target_index, effects, k - 1),
            source_index,
            target_index,
            effects[k - 1],
        )
    }
}

/// The roster after applying a sub-action's effect list to its first `k`
/// selected targets, in selection order.
pub open spec fn spec_apply_to_targets(
    roster: Seq<CombatantView>,
    source_index: int,
    targets: Seq<usize>,
    effects: Seq<Effect>,
    k: int,
) -> Seq<CombatantView>
    decreases k,
{
    if k <= 0 {
        roster
    } else {
        spec_apply_effects(
            spec_apply_to_targets(roster, source_index, targets, effects, k - 1),
            source_index,
            targets[k - 1] as int,
            effects,
            effects.len() as int,
        )
    }
}

/// The roster after applying the first `k` sub-actions of an action, each to
/// its own selected targets.
pub open spec fn spec_apply_sub_actions(
    roster: Seq<CombatantView>,
    source_index: int,
    subs: Seq<crate::actions::SubActionView>,
    target_indices: Seq<Seq<usize>>,
    k: int,
) -> Seq<CombatantView>
    decreases k,
{
    if k <= 0 {
        roster
    } else {
        spec_apply_to_targets(
            spec_apply_sub_actions(roster, source_index, subs, target_indices, k - 1),
            source_index,
            target_indices[k - 1],
            subs[k - 1].effects,
            target_indices[k - 1].len() as int,
        )
    }
}

/// The damage arithmetic changes only `hp`, and keeps it within bounds.
pub proof fn lemma_process_damage_wf(c: CombatantView, aspect: crate::damage::DamageAspect, dv: u32)
    requires
        c.wf(),
    ensures
        spec_process_damage(c, aspect, dv).wf(),
        spec_process_damage(c, aspect, dv) == (CombatantView {
            hp: spec_process_damage(c, aspect, dv).hp,
            ..c
        }),
{
    let defense = c.stat_value(aspect.spec_defense_stat());
    let absorption = c.stat_value(aspect.spec_absorption_stat());
    if dv >= defense {
        let net = dv - defense;
        if absorption > 100 {
            assert(net * (absorption - 100) >= 0) by (nonlinear_arith)
                requires
                    net >= 0,
                    absorption > 100,
            ;
        } else {
            assert(net * (100 - absorption) >= 0) by (nonlinear_arith)
                requires
                    net >= 0,
                    absorption <= 100,
            ;
        }
    }
}

/// Applying one effect keeps the roster's length and well-formedness, leaves
/// every other combatant untouched, and never rewrites a status-effect entry
/// that is already stored: at most it appends one to the target.
pub proof fn lemma_apply_effect_preserves(
    roster: Seq<CombatantView>,
    source_index: int,
    target_index: int,
    e: Effect,
)
    requires
        0 <= source_index < roster.len(),
        0 <= target_index < roster.len(),
        roster_all_wf(roster),
    ensures
        spec_apply_effect(roster, source_index, target_index, e).len() == roster.len(),
        roster_all_wf(spec_apply_effect(roster, source_index, target_index, e)),
        forall|i: int|
            0 <= i < roster.len() && i != target_index ==> #[trigger] spec_apply_effect(
                roster,
                source_index,
                target_index,
                e,
            )[i] == roster[i],
        forall|i: int, j: int|
            0 <= i < roster.len() && 0 <= j < roster[i].status_effects.len()
                ==> #[trigger] spec_apply_effect(roster, source_index, target_index, e)[i].status_effects[j]
                == roster[i].status_effects[j],
        forall|i: int|
            0 <= i < roster.len() ==> (#[trigger] spec_apply_effect(
                roster,
                source_index,
                target_index,
                e,
            )[i]).status_effects.len() >= roster[i].status_effects.len(),
        forall|i: int|
            0 <= i < roster.len() ==> (#[trigger] spec_apply_effect(
                roster,
                source_index,
                target_index,
                e,
            )[i]).actions == roster[i].actions,
        forall|i: int|
            0 <= i < roster.len() ==> (#[trigger] spec_apply_effect(
                roster,
                source_index,
                target_index,
                e,
            )[i]).gender == roster[i].gender,
{
    let result = spec_apply_effect(roster, source_index, target_index, e);
    let tgt = roster[target_index];
    assert(tgt.wf());
    match e {
        Effect::Damage(d) => {
            let src = spec_effect_source(roster, source_index, target_index);
            let dv = spec_damage_value(tgt, src, d.aspect, d.scaling);
            lemma_process_damage_wf(tgt, d.aspect, dv);
        },
        Effect::Modifier(m, stat) => {
            assert(result[target_index].wf());
        },
        Effect::StatusEffect(se) => {
            assert(result[target_index].wf());
        },
    }
}

/// `lemma_apply_effect_preserves`, folded over a whole effect list.
pub proof fn lemma_apply_effects_preserves(
    roster: Seq<CombatantView>,
    source_index: int,
    target_index: int,
    effects: Seq<Effect>,
    k: int,
)
    requires
        0 <= source_index < roster.len(),
        0 <= target_index < roster.len(),
        roster_all_wf(roster),
    ensures
        spec_apply_effects(roster, source_index, target_index, effects, k).len() == roster.len(),
        roster_all_wf(spec_apply_effects(roster, source_index, target_index, effects, k)),
        forall|i: int|
            0 <= i < roster.len() && i != target_index ==> #[trigger] spec_apply_effects(
                roster,
                source_index,
                target_index,
                effects,
                k,
            )[i] == roster[i],
        forall|i: int, j: int|
            0 <= i < roster.len() && 0 <= j < roster[i].status_effects.len()
                ==> #[trigger] spec_apply_effects(roster, source_index, target_index, effects, k)[i].status_effects[j]
                == roster[i].status_effects[j],
        forall|i: int|
            0 <= i < roster.len() ==> (#[trigger] spec_apply_effects(
                roster,
                source_index,
                target_index,
                effects,
                k,
            )[i]).status_effects.len() >= roster[i].status_effects.len(),
        forall|i: int|
            0 <= i < roster.len() ==> (#[trigger] spec_apply_effects(
                roster,
                source_index,
                target_index,
                effects,
                k,
            )[i]).actions == roster[i].actions,
        forall|i: int|
            0 <= i < roster.len() ==> (#[trigger] spec_apply_effects(
                roster,
                source_index,
                target_index,
                effects,
                k,
            )[i]).gender == roster[i].gender,
    decreases k,
{
    if k > 0 {
        lemma_apply_effects_preserves(roster, source_index, target_index, effects, k - 1);
        let pre = spec_apply_effects(roster, source_index, target_index, effects, k - 1);
        lemma_apply_effect_preserves(pre, source_index, target_index, effects[k - 1]);
    }
}

/// `lemma_apply_effect_preserves`, folded over a target list.
pub proof fn lemma_apply_to_targets_preserves(
    roster: Seq<CombatantView>,
    source_index: int,
    targets: Seq<usize>,
    effects: Seq<Effect>,
    k: int,
)
    requires
        0 <= source_index < roster.len(),
        k <= targets.len(),
        forall|i: int| 0 <= i < targets.len() ==> (#[trigger] targets[i]) < roster.len(),
        roster_all_wf(roster),
    ensures
        spec_apply_to_targets(roster, source_index, targets, effects, k).len() == roster.len(),
        roster_all_wf(spec_apply_to_targets(roster, source_index, targets, effects, k)),
        forall|i: int, j: int|
            0 <= i < roster.len() && 0 <= j < roster[i].status_effects.len()
                ==> #[trigger] spec_apply_to_targets(roster, source_index, targets, effects, k)[i].status_effects[j]
                == roster[i].status_effects[j],
        forall|i: int|
            0 <= i < roster.len() ==> (#[trigger] spec_apply_to_targets(
                roster,
                source_index,
                targets,
                effects,
                k,
            )[i]).status_effects.len() >= roster[i].status_effects.len(),
        forall|i: int|
            0 <= i < roster.len() ==> (#[trigger] spec_apply_to_targets(
                roster,
                source_index,
                targets,
                effects,
                k,
            )[i]).actions == roster[i].actions,
    decreases k,
{
    if k > 0 {
        lemma_apply_to_targets_preserves(roster, source_index, targets, effects, k - 1);
        let pre = spec_apply_to_targets(roster, source_index, targets, effects, k - 1);
        lemma_apply_effects_preserves(
            pre,
            source_index,
            targets[k - 1] as int,
            effects,
            effects.len() as int,
        );
    }
}

/// `lemma_apply_effect_preserves`, folded over a whole action.
pub proof fn lemma_apply_sub_actions_preserves(
    roster: Seq<CombatantView>,
    source_index: int,
    subs: Seq<crate::actions::SubActionView>,
    target_indices: Seq<Seq<usize>>,
    k: int,
)
    requires
        0 <= source_index < roster.len(),
        k <= target_indices.len(),
        forall|i: int, j: int|
            0 <= i < target_indices.len() && 0 <= j < target_indices[i].len()
                ==> (#[trigger] target_indices[i][j]) < roster.len(),
        roster_all_wf(roster),
    ensures
        spec_apply_sub_actions(roster, source_index, subs, target_indices, k).len() == roster.len(),
        roster_all_wf(spec_apply_sub_actions(roster, source_index, subs, target_indices, k)),
        forall|i: int, j: int|
            0 <= i < roster.len() && 0 <= j < roster[i].status_effects.len()
                ==> #[trigger] spec_apply_sub_actions(roster, source_index, subs, target_indices, k)[i].status_effects[j]
                == roster[i].status_effects[j],
        forall|i: int|
            0 <= i < roster.len() ==> (#[trigger] spec_apply_sub_actions(
                roster,
                source_index,
                subs,
                target_indices,
                k,
            )[i]).status_effects.len() >= roster[i].status_effects.len(),
        forall|i: int|
            0 <= i < roster.len() ==> (#[trigger] spec_apply_sub_actions(
                roster,
                source_index,
                subs,
                target_indices,
                k,
            )[i]).actions == roster[i].actions,
    decreases k,
{
    if k > 0 {
        lemma_apply_sub_actions_preserves(roster, source_index, subs, target_indices, k - 1);
        let pre = spec_apply_sub_actions(roster, source_index, subs, target_indices, k - 1);
        lemma_apply_to_targets_preserves(
            pre,
            source_index,
            target_indices[k - 1],
            subs[k - 1].effects,
            target_indices[k - 1].len() as int,
        );
        let full = spec_apply_sub_actions(roster, source_index, subs, target_indices, k);
        assert forall|i: int, j: int|
            0 <= i < roster.len() && 0 <= j < roster[i].status_effects.len() implies full[i].status_effects[j]
            == roster[i].status_effects[j] by {
            assert(pre[i].status_effects[j] == roster[i].status_effects[j]);
            assert(pre[i].status_effects.len() >= roster[i].status_effects.len());
            assert(full[i].status_effects[j] == pre[i].status_effects[j]);
        }
    }
}

/// Status-effect value pinning (law): an entry already stored on any
/// combatant is never rewritten by applying a whole action — effect
/// application only appends new entries — so the damage value captured when
/// the status effect was applied stays exactly as stored, whatever later
/// modifiers do to the source's attack stats. The post-turn tick re-applies
/// precisely that stored value (`spec_reapply_status` reads
/// `status_effects[k].value` and nothing of any source).
pub proof fn lemma_status_value_pinned(
    roster: Seq<CombatantView>,
    source_index: int,
    subs: Seq<crate::actions::SubActionView>,
    target_indices: Seq<Seq<usize>>,
    k: int,
    i: int,
    j: int,
)
    requires
        0 <= source_index < roster.len(),
        k <= target_indices.len(),
        forall|x: int, y: int|
            0 <= x < target_indices.len() && 0 <= y < target_indices[x].len()
                ==> (#[trigger] target_indices[x][y]) < roster.len(),
        roster_all_wf(roster),
        0 <= i < roster.len(),
        0 <= j < roster[i].status_effects.len(),
    ensures
        spec_apply_sub_actions(roster, source_index, subs, target_indices, k)[i].status_effects[j]
            == roster[i].status_effects[j],
{
    lemma_apply_sub_actions_preserves(roster, source_index, subs, target_indices, k);
}

/// The pre-turn decrement touches only lifetimes: a stored status-effect
/// entry keeps its aspect and its pinned damage value.
pub proof fn lemma_decrement_keeps_status_values(c: CombatantView, j: int)
    requires
        0 <= j < c.status_effects.len(),
    ensures
        spec_decrement_combatant(c).status_effects[j].value == c.status_effects[j].value,
        spec_decrement_combatant(c).status_effects[j].aspect == c.status_effects[j].aspect,
{
}

/// The model of a per-sub-action target selection list.
pub open spec fn targets_view(t: Seq<Vec<usize>>) -> Seq<Seq<usize>> {
    t.map_values(|v: Vec<usize>| v@)
}

pub(crate) fn placeholder_combatant() -> Combatant {
    Combatant {
        name: String::new(),
        gender: crate::combatant::Gender::Male,
        hp: 0,
        hp_max: 0,
        stats: Vec::new(),
        modifiers: Vec::new(),
        status_effects: Vec::new(),
        actions: Vec::new(),
    }
}

/// Apply every effect of a sub-action, in declaration order, to the target
/// at `target_index`, on behalf of the combatant at `source_index`. The
/// target is taken out of the roster while its effects run, so the source
/// can be read without aliasing; when source and target coincide the
/// target's own stats drive the damage arithmetic.
pub fn apply_effects_to_target(
    combatants: &mut Vec<Combatant>,
    source_index: usize,
    target_index: usize,
    effects: &Vec<Effect>,
)
    requires
        source_index < old(combatants)@.len(),
        target_index < old(combatants)@.len(),
        roster_all_wf(roster_view(old(combatants)@)),
        forall|i: int| 0 <= i < effects@.len() ==> crate::actions::effect_wf(#[trigger] effects@[i]),
    ensures
        roster_view(final(combatants)@) == spec_apply_effects(
            roster_view(old(combatants)@),
            source_index as int,
            target_index as int,
            effects@,
            effects@.len() as int,
        ),
        final(combatants)@.len() == old(combatants)@.len(),
{
    let ghost roster0 = roster_view(combatants@);
    let mut c = placeholder_combatant();
    combatants.set_and_swap(target_index, &mut c);
    proof {
        assert(c@ == roster0[target_index as int]);
    }
    let mut i: usize = 0;
    while i < effects.len()
        invariant
            i <= effects@.len(),
            source_index < roster0.len(),
            target_index < roster0.len(),
            roster_all_wf(roster0),
            forall|t: int| 0 <= t < effects@.len() ==> crate::actions::effect_wf(#[trigger] effects@[t]),
            combatants@.len() == roster0.len(),
            c@ == spec_apply_effects(
                roster0,
                source_index as int,
                target_index as int,
                effects@,
                i as int,
            )[target_index as int],
            forall|j: int|
                0 <= j < roster0.len() && j != target_index ==> roster_view(combatants@)[j]
                    == #[trigger] spec_apply_effects(
                    roster0,
                    source_index as int,
                    target_index as int,
                    effects@,
                    i as int,
                )[j],
        decreases effects@.len() - i,
    {
        let ghost cur = spec_apply_effects(
            roster0,
            source_index as int,
            target_index as int,
            effects@,
            i as int,
        );
        proof {
            lemma_apply_effects_preserves(
                roster0,
                source_index as int,
                target_index as int,
                effects@,
                i as int,
            );
            assert(cur[target_index as int].wf());
        }
        let e = effects[i];
        match e {
            Effect::Damage(d) => {
                let dv = if source_index == target_index {
                    calculate_damage_value(&c, EffectSource::Origin, d.aspect, d.scaling)
                } else {
                    proof {
                        assert(roster_view(combatants@)[source_index as int] == combatants@[source_index as int]@);
                    }
                    calculate_damage_value(
                        &c,
                        EffectSource::Other(&combatants[source_index]),
                        d.aspect,
                        d.scaling,
                    )
                };
                proof {
                    assert(dv == spec_damage_value(
                        cur[target_index as int],
                        spec_effect_source(cur, source_index as int, target_index as int),
                        d.aspect,
                        d.scaling,
                    ));
                }
                process_damage(&mut c, d.aspect, dv);
                proof {
                    assert(c@ == spec_apply_effect(
                        cur,
                        source_index as int,
                        target_index as int,
                        effects@[i as int],
                    )[target_index as int]);
                }
            },
            Effect::Modifier(m, stat) => {
                let idx = stat.index();
                let ghost mods0 = c@.modifiers;
                let mut row: Vec<Modifier> = Vec::new();
                c.modifiers.set_and_swap(idx, &mut row);
                row.push(m);
                c.modifiers.set_and_swap(idx, &mut row);
                proof {
                    assert(c@.modifiers =~= mods0.update(idx as int, mods0[idx as int].push(m)));
                    let want = spec_apply_effect(
                        cur,
                        source_index as int,
                        target_index as int,
                        effects@[i as int],
                    )[target_index as int];
                    assert(c@.modifiers =~= want.modifiers);
                    assert(c@ =~= want);
                }
            },
            Effect::StatusEffect(se) => {
                let dv = if source_index == target_index {
                    calculate_damage_value(&c, EffectSource::Origin, se.aspect, se.scaling)
                } else {
                    proof {
                        assert(roster_view(combatants@)[source_index as int] == combatants@[source_index as int]@);
                    }
                    calculate_damage_value(
                        &c,
                        EffectSource::Other(&combatants[source_index]),
                        se.aspect,
                        se.scaling,
                    )
                };
                c.status_effects.push(
                    StatusEffectEntry { aspect: se.aspect, value: dv, lifetime: se.lifetime },
                );
                proof {
                    let want = spec_apply_effect(
                        cur,
                        source_index as int,
                        target_index as int,
                        effects@[i as int],
                    )[target_index as int];
                    assert(c@ =~= want);
                }
            },
        }
        i += 1;
    }
    let ghost pre_swap = combatants@;
    let ghost c_fin = c@;
    combatants.set_and_swap(target_index, &mut c);
    proof {
        lemma_apply_effects_preserves(
            roster0,
            source_index as int,
            target_index as int,
            effects@,
            effects@.len() as int,
        );
        let fin = spec_apply_effects(
            roster0,
            source_index as int,
            target_index as int,
            effects@,
            effects@.len() as int,
        );
        assert forall|j: int| 0 <= j < roster0.len() implies roster_view(combatants@)[j] == fin[j] by {
            assert(roster_view(combatants@)[j] == combatants@[j]@);
            if j != target_index {
                assert(combatants@[j] == pre_swap[j]);
                assert(roster_view(pre_swap)[j] == pre_swap[j]@);
            } else {
                assert(combatants@[j]@ == c_fin);
            }
        }
        assert(roster_view(combatants@) =~= fin);
    }
}

/// Apply a sub-action's effects to each of its selected targets, in
/// selection order.
pub fn apply_sub_action_to_targets(
    combatants: &mut Vec<Combatant>,
    source_index: usize,
    targets: &Vec<usize>,
    effects: &Vec<Effect>,
)
    requires
        source_index < old(combatants)@.len(),
        forall|i: int| 0 <= i < targets@.len() ==> (#[trigger] targets@[i]) < old(combatants)@.len(),
        roster_all_wf(roster_view(old(combatants)@)),
        forall|i: int| 0 <= i < effects@.len() ==> crate::actions::effect_wf(#[trigger] effects@[i]),
    ensures
        roster_view(final(combatants)@) == spec_apply_to_targets(
            roster_view(old(combatants)@),
            source_index as int,
            targets@,
            effects@,
            targets@.len() as int,
        ),
        final(combatants)@.len() == old(combatants)@.len(),
{
    let ghost roster0 = roster_view(combatants@);
    let mut i: usize = 0;
    while i < targets.len()
        invariant
            i <= targets@.len(),
            source_index < roster0.len(),
            forall|j: int| 0 <= j < targets@.len() ==> (#[trigger] targets@[j]) < roster0.len(),
            roster_all_wf(roster0),
            forall|t: int| 0 <= t < effects@.len() ==> crate::actions::effect_wf(#[trigger] effects@[t]),
            combatants@.len() == roster0.len(),
            roster_view(combatants@) == spec_apply_to_targets(
                roster0,
                source_index as int,
                targets@,
                effects@,
                i as int,
            ),
        decreases targets@.len() - i,
    {
        proof {
            lemma_apply_to_targets_preserves(roster0, source_index as int, targets@, effects@, i as int);
        }
        apply_effects_to_target(combatants, source_index, targets[i], effects);
        i += 1;
    }
}

/// Apply a whole action: for each sub-action in order, apply its effect
/// list to each of that sub-action's selected targets.
pub fn apply_action(
    combatants: &mut Vec<Combatant>,
    source_index: usize,
    action: &Action,
    target_indices: &Vec<Vec<usize>>,
)
    requires
        source_index < old(combatants)@.len(),
        target_indices@.len() == action@.sub_actions.len(),
        forall|i: int, j: int|
            0 <= i < targets_view(target_indices@).len() && 0 <= j < targets_view(target_indices@)[i].len()
                ==> (#[trigger] targets_view(target_indices@)[i][j]) < old(combatants)@.len(),
        roster_all_wf(roster_view(old(combatants)@)),
        crate::actions::action_wf(action@),
    ensures
        roster_view(final(combatants)@) == spec_apply_sub_actions(
            roster_view(old(combatants)@),
            source_index as int,
            action@.sub_actions,
            targets_view(target_indices@),
            target_indices@.len() as int,
        ),
        final(combatants)@.len() == old(combatants)@.len(),
{
    let ghost roster0 = roster_view(combatants@);
    let ghost tis = targets_view(target_indices@);
    let mut i: usize = 0;
    while i < target_indices.len()
        invariant
            i <= target_indices@.len(),
            source_index < roster0.len(),
            tis == targets_view(target_indices@),
            tis.len() == action@.sub_actions.len(),
            forall|x: int, j: int|
                0 <= x < tis.len() && 0 <= j < tis[x].len() ==> (#[trigger] tis[x][j]) < roster0.len(),
            roster_all_wf(roster0),
            crate::actions::action_wf(action@),
            combatants@.len() == roster0.len(),
            roster_view(combatants@) == spec_apply_sub_actions(
                roster0,
                source_index as int,
                action@.sub_actions,
                tis,
                i as int,
            ),
        decreases target_indices@.len() - i,
    {
        proof {
            lemma_apply_sub_actions_preserves(
                roster0,
                source_index as int,
                action@.sub_actions,
                tis,
                i as int,
            );
            assert(crate::actions::sub_action_wf(action@.sub_actions[i as int]));
            assert(action@.sub_actions[i as int] == action.sub_actions@[i as int]@);
            assert(tis[i as int] == target_indices@[i as int]@);
            assert forall|t: int| 0 <= t < action.sub_actions@[i as int].effects@.len()
                implies crate::actions::effect_wf(#[trigger] action.sub_actions@[i as int].effects@[t]) by {
                assert(action@.sub_actions[i as int].effects[t] == action.sub_actions@[i as int].effects@[t]);
            }
        }
        apply_sub_action_to_targets(
            combatants,
            source_index,
            &target_indices[i],
            &action.sub_actions[i].effects,
        );
        i += 1;
    }
}

} // verus!
