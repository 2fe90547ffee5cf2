use vstd::prelude::*;
use crate::actions::{SubAction, TargetFlag};
use crate::combatant::{Combatant, CombatantView, Gender, roster_view};

verus! {

/// Whether one flag admits roster index `i` as a target for the combatant at
/// `source_index`.
pub open spec fn spec_flag_holds(
    flag: TargetFlag,
    roster: Seq<CombatantView>,
    source_index: int,
    i: int,
) -> bool {
    match flag {
        TargetFlag::Any => true,
        TargetFlag::Gender(g) => roster[i].gender == g,
        TargetFlag::Origin => i == source_index,
    }
}

/// Whether a group of flags admits index `i`: at least one of its flags
/// holds. An empty group admits nobody.
pub open spec fn spec_group_holds(
    group: Seq<TargetFlag>,
    roster: Seq<CombatantView>,
    source_index: int,
    i: int,
) -> bool {
    exists|k: int| 0 <= k < group.len() && spec_flag_holds(#[trigger] group[k], roster, source_index, i)
}

/// Whether index `i` is an eligible target: every flag group admits it.
pub open spec fn spec_is_eligible(
    flags: Seq<Seq<TargetFlag>>,
    roster: Seq<CombatantView>,
    source_index: int,
    i: int,
) -> bool {
    forall|g: int| 0 <= g < flags.len() ==> spec_group_holds(#[trigger] flags[g], roster, source_index, i)
}

/// The eligible indices below `k`, in roster order.
pub open spec fn spec_eligible_prefix(
    flags: Seq<Seq<TargetFlag>>,
    roster: Seq<CombatantView>,
    source_index: int,
    k: int,
) -> Seq<usize>
    decreases k,
{
    if k <= 0 {
        Seq::empty()
    } else {
        let pre = spec_eligible_prefix(flags, roster, source_index, k - 1);
        if spec_is_eligible(flags, roster, source_index, k - 1) {
            pre.push((k - 1) as usize)
        } else {
            pre
        }
    }
}

/// The ordered sequence of eligible target indices for a sub-action.
pub open spec fn spec_possible_targets(
    flags: Seq<Seq<TargetFlag>>,
    roster: Seq<CombatantView>,
    source_index: int,
) -> Seq<usize> {
    spec_eligible_prefix(flags, roster, source_index, roster.len() as int)
}

/// An index is in the resolved sequence exactly when it is in range and
/// eligible.
pub proof fn lemma_eligible_prefix_membership(
    flags: Seq<Seq<TargetFlag>>,
    roster: Seq<CombatantView>,
    source_index: int,
    k: int,
    x: usize,
)
    requires
        k <= usize::MAX as int,
    ensures
        spec_eligible_prefix(flags, roster, source_index, k).contains(x) <==> (x < k
            && spec_is_eligible(flags, roster, source_index, x as int)),
    decreases k,
{
    if k > 0 {
        lemma_eligible_prefix_membership(flags, roster, source_index, k - 1, x);
        let pre = spec_eligible_prefix(flags, roster, source_index, k - 1);
        let full = spec_eligible_prefix(flags, roster, source_index, k);
        if spec_is_eligible(flags, roster, source_index, k - 1) {
            assert(full == pre.push((k - 1) as usize));
            if x < k && spec_is_eligible(flags, roster, source_index, x as int) {
                if x == k - 1 {
                    assert(full[full.len() - 1] == x);
                    assert(full.contains(x));
                } else {
                    let j = choose|j: int| 0 <= j < pre.len() && pre[j] == x;
                    assert(full[j] == x);
                    assert(full.contains(x));
                }
            }
            if full.contains(x) {
                let j = choose|j: int| 0 <= j < full.len() && full[j] == x;
                if j < pre.len() {
                    assert(pre[j] == x);
                    assert(pre.contains(x));
                }
            }
        } else {
            assert(full == pre);
        }
    }
}

/// Every entry of the resolved prefix is below `k`.
pub proof fn lemma_eligible_prefix_bounded(
    flags: Seq<Seq<TargetFlag>>,
    roster: Seq<CombatantView>,
    source_index: int,
    k: int,
)
    requires
        k <= usize::MAX as int,
    ensures
        forall|j: int|
            0 <= j < spec_eligible_prefix(flags, roster, source_index, k).len()
                ==> #[trigger] spec_eligible_prefix(flags, roster, source_index, k)[j] < k,
    decreases k,
{
    if k > 0 {
        lemma_eligible_prefix_bounded(flags, roster, source_index, k - 1);
        let pre = spec_eligible_prefix(flags, roster, source_index, k - 1);
        let full = spec_eligible_prefix(flags, roster, source_index, k);
        assert forall|j: int| 0 <= j < full.len() implies full[j] < k by {
            if j < pre.len() {
                assert(full[j] == pre[j]);
            }
        }
    }
}

/// The resolved sequence is strictly increasing: targets come in roster
/// order, without repetition.
pub proof fn lemma_eligible_prefix_increasing(
    flags: Seq<Seq<TargetFlag>>,
    roster: Seq<CombatantView>,
    source_index: int,
    k: int,
)
    requires
        k <= usize::MAX as int,
    ensures
        forall|p: int, q: int|
            0 <= p < q < spec_eligible_prefix(flags, roster, source_index, k).len()
                ==> #[trigger] spec_eligible_prefix(flags, roster, source_index, k)[p]
                < #[trigger] spec_eligible_prefix(flags, roster, source_index, k)[q],
    decreases k,
{
    if k > 0 {
        lemma_eligible_prefix_increasing(flags, roster, source_index, k - 1);
        lemma_eligible_prefix_bounded(flags, roster, source_index, k - 1);
        let pre = spec_eligible_prefix(flags, roster, source_index, k - 1);
        let full = spec_eligible_prefix(flags, roster, source_index, k);
        assert forall|p: int, q: int| 0 <= p < q < full.len() implies full[p] < full[q] by {
            if q < pre.len() {
                assert(full[p] == pre[p]);
                assert(full[q] == pre[q]);
            } else if full.len() == pre.len() + 1 {
                assert(full[p] == pre[p]);
                assert(pre[p] < k - 1);
            }
        }
    }
}

/// Compute the ordered eligible target indices for a sub-action: index `i`
/// qualifies when every flag group contains at least one flag that holds of
/// it.
pub fn resolve_targets(combatants: &Vec<Combatant>, source_index: usize, sub_action: &SubAction) -> (r:
    Vec<usize>)
    ensures
        r@ == spec_possible_targets(sub_action@.target_flags, roster_view(combatants@), source_index as int),
{
    let ghost flags = sub_action@.target_flags;
    let ghost roster = roster_view(combatants@);
    let mut r: Vec<usize> = Vec::new();
    let mut i: usize = 0;
    while i < combatants.len()
        invariant
            i <= combatants.len(),
            flags == sub_action@.target_flags,
            roster == roster_view(combatants@),
            r@ == spec_eligible_prefix(flags, roster, source_index as int, i as int),
        decreases combatants.len() - i,
    {
        let mut is_valid_target = true;
        let mut g: usize = 0;
        while g < sub_action.target_flags.len()
            invariant
                g <= sub_action.target_flags.len(),
                i < combatants.len(),
                flags == sub_action@.target_flags,
                roster == roster_view(combatants@),
                is_valid_target == forall|gg: int|
                    0 <= gg < g ==> spec_group_holds(
                        #[trigger] flags[gg],
                        roster,
                        source_index as int,
                        i as int,
                    ),
            decreases sub_action.target_flags.len() - g,
        {
            let group = &sub_action.target_flags[g];
            let mut group_holds = false;
            let mut f: usize = 0;
            while f < group.len()
                invariant
                    f <= group.len(),
                    i < combatants.len(),
                    group@ == flags[g as int],
                    g < flags.len(),
                    roster == roster_view(combatants@),
                    group_holds == exists|k: int|
                        0 <= k < f && spec_flag_holds(
                            #[trigger] group@[k],
                            roster,
                            source_index as int,
                            i as int,
                        ),
                decreases group.len() - f,
            {
                let holds = match group[f] {
                    TargetFlag::Any => true,
                    TargetFlag::Gender(gender) => combatants[i].gender == gender,
                    TargetFlag::Origin => source_index == i,
                };
                proof {
                    assert(roster[i as int] == combatants@[i as int]@);
                    assert(holds == spec_flag_holds(group@[f as int], roster, source_index as int, i as int));
                }
                group_holds = group_holds || holds;
                f += 1;
            }
            proof {
                assert(group_holds == spec_group_holds(flags[g as int], roster, source_index as int, i as int));
            }
            is_valid_target = is_valid_target && group_holds;
            g += 1;
        }
        proof {
            assert(is_valid_target == spec_is_eligible(flags, roster, source_index as int, i as int));
        }
        if is_valid_target {
            r.push(i);
        }
        i += 1;
    }
    r
}

/// With a single `Origin` flag group, exactly the acting combatant is
/// eligible: the resolved sequence is `[source_index]`.
pub proof fn lemma_origin_targets(roster: Seq<CombatantView>, source_index: int)
    requires
        0 <= source_index < roster.len(),
    ensures
        spec_possible_targets(seq![seq![TargetFlag::Origin]], roster, source_index) =~= seq![
            source_index as usize,
        ],
{
    let flags = seq![seq![TargetFlag::Origin]];
    assert forall|i: int| 0 <= i < roster.len() implies spec_is_eligible(flags, roster, source_index, i)
        == (i == source_index) by {
        if i == source_index {
            assert(spec_flag_holds(flags[0][0], roster, source_index, i));
            assert(spec_group_holds(flags[0], roster, source_index, i));
        }
        if spec_is_eligible(flags, roster, source_index, i) {
            assert(spec_group_holds(flags[0], roster, source_index, i));
        }
    }
    lemma_origin_targets_prefix(roster, source_index, roster.len() as int);
}

proof fn lemma_origin_targets_prefix(roster: Seq<CombatantView>, source_index: int, k: int)
    requires
        0 <= source_index < roster.len(),
        k <= roster.len(),
    ensures
        spec_eligible_prefix(seq![seq![TargetFlag::Origin]], roster, source_index, k) =~= if k
            > source_index {
            seq![source_index as usize]
        } else {
            Seq::<usize>::empty()
        },
    decreases k,
{
    let flags = seq![seq![TargetFlag::Origin]];
    if k > 0 {
        lemma_origin_targets_prefix(roster, source_index, k - 1);
        if spec_is_eligible(flags, roster, source_index, k - 1) {
            assert(spec_group_holds(flags[0], roster, source_index, k - 1));
            assert(k - 1 == source_index);
        } else if k - 1 == source_index {
            assert(spec_flag_holds(flags[0][0], roster, source_index, k - 1));
            assert(spec_group_holds(flags[0], roster, source_index, k - 1));
        }
    }
}

/// With a single `Gender(g)` flag group, exactly the roster indices of that
/// gender are eligible.
pub proof fn lemma_gender_targets(roster: Seq<CombatantView>, source_index: int, g: Gender, x: usize)
    requires
        roster.len() <= usize::MAX,
    ensures
        spec_possible_targets(seq![seq![TargetFlag::Gender(g)]], roster, source_index).contains(x)
            <==> (x < roster.len() && roster[x as int].gender == g),
{
    let flags = seq![seq![TargetFlag::Gender(g)]];
    assert forall|i: int| spec_is_eligible(flags, roster, source_index, i) == (roster[i].gender
        == g) by {
        if roster[i].gender == g {
            assert(spec_flag_holds(flags[0][0], roster, source_index, i));
            assert(spec_group_holds(flags[0], roster, source_index, i));
        }
        if spec_is_eligible(flags, roster, source_index, i) {
            assert(spec_group_holds(flags[0], roster, source_index, i));
        }
    }
    lemma_eligible_prefix_membership(flags, roster, source_index, roster.len() as int, x);
}

/// With a single `Any` flag group, the whole roster is eligible, in order.
pub proof fn lemma_any_targets(roster: Seq<CombatantView>, source_index: int)
    ensures
        spec_possible_targets(seq![seq![TargetFlag::Any]], roster, source_index) =~= Seq::new(
            roster.len(),
            |i: int| i as usize,
        ),
{
    lemma_any_targets_prefix(roster, source_index, roster.len() as int);
}

proof fn lemma_any_targets_prefix(roster: Seq<CombatantView>, source_index: int, k: int)
    requires
        k <= roster.len(),
    ensures
        spec_eligible_prefix(seq![seq![TargetFlag::Any]], roster, source_index, k) =~= Seq::new(
            if k < 0 {
                0nat
            } else {
                k as nat
            },
            |i: int| i as usize,
        ),
    decreases k,
{
    let flags = seq![seq![TargetFlag::Any]];
    if k > 0 {
        lemma_any_targets_prefix(roster, source_index, k - 1);
        assert(spec_flag_holds(flags[0][0], roster, source_index, k - 1));
        assert(spec_group_holds(flags[0], roster, source_index, k - 1));
        assert(spec_is_eligible(flags, roster, source_index, k - 1));
    }
}

/// A sub-action with an empty flag group admits no target at all.
pub proof fn lemma_empty_group_targets(
    flags: Seq<Seq<TargetFlag>>,
    roster: Seq<CombatantView>,
    source_index: int,
    g: int,
)
    requires
        0 <= g < flags.len(),
        flags[g].len() == 0,
        roster.len() <= usize::MAX,
    ensures
        spec_possible_targets(flags, roster, source_index) =~= Seq::<usize>::empty(),
{
    let result = spec_possible_targets(flags, roster, source_index);
    if result.len() > 0 {
        assert(result.contains(result[0]));
        lemma_eligible_prefix_membership(flags, roster, source_index, roster.len() as int, result[0]);
        assert(spec_group_holds(flags[g], roster, source_index, result[0] as int));
    }
}

} // verus!
