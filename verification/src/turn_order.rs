use vstd::prelude::*;
use crate::combatant::{Combatant, CombatantView, Stat, roster_view};

verus! {

/// The strict total order that decides who acts first: higher effective
/// Agility first, ties broken by the lower original roster index.
pub open spec fn spec_turn_precedes(roster: Seq<CombatantView>, a: int, b: int) -> bool {
    let aa = roster[a].stat_value(Stat::Agility);
    let ba = roster[b].stat_value(Stat::Agility);
    aa > ba || (aa == ba && a < b)
}

/// A valid turn order for a roster: one entry per combatant, each a roster
/// index, arranged by descending Agility with ties in roster order. Strict
/// sortedness makes the entries pairwise distinct, so the order is a
/// permutation of the roster indices.
pub open spec fn spec_is_turn_order(order: Seq<usize>, roster: Seq<CombatantView>) -> bool {
    &&& order.len() == roster.len()
    &&& forall|i: int| 0 <= i < order.len() ==> (#[trigger] order[i]) < roster.len()
    &&& forall|i: int, j: int|
        0 <= i < j < order.len() ==> spec_turn_precedes(roster, order[i] as int, order[j] as int)
}

/// In a valid turn order, effective Agility is non-increasing from front to
/// back.
pub proof fn lemma_turn_order_agility_monotone(order: Seq<usize>, roster: Seq<CombatantView>)
    requires
        spec_is_turn_order(order, roster),
    ensures
        forall|i: int, j: int|
            0 <= i < j < order.len() ==> roster[#[trigger] order[i] as int].stat_value(Stat::Agility)
                >= roster[#[trigger] order[j] as int].stat_value(Stat::Agility),
{
    assert forall|i: int, j: int| 0 <= i < j < order.len() implies roster[order[i] as int].stat_value(
        Stat::Agility,
    ) >= roster[order[j] as int].stat_value(Stat::Agility) by {
        assert(spec_turn_precedes(roster, order[i] as int, order[j] as int));
    }
}

/// In a valid turn order, combatants of equal effective Agility keep their
/// roster order: the sort is stable.
pub proof fn lemma_turn_order_stable(order: Seq<usize>, roster: Seq<CombatantView>)
    requires
        spec_is_turn_order(order, roster),
    ensures
        forall|i: int, j: int|
            0 <= i < j < order.len() && roster[#[trigger] order[i] as int].stat_value(Stat::Agility)
                == roster[#[trigger] order[j] as int].stat_value(Stat::Agility) ==> order[i] < order[j],
{
    assert forall|i: int, j: int|
        0 <= i < j < order.len() && roster[order[i] as int].stat_value(Stat::Agility)
            == roster[order[j] as int].stat_value(Stat::Agility) implies order[i] < order[j] by {
        assert(spec_turn_precedes(roster, order[i] as int, order[j] as int));
    }
}

/// A sequence of pairwise-distinct values below `m` has at most `m`
/// entries.
proof fn lemma_distinct_bounded_len(s: Seq<usize>, m: nat)
    requires
        forall|i: int| 0 <= i < s.len() ==> (#[trigger] s[i]) < m,
        forall|i: int, j: int| 0 <= i < j < s.len() ==> s[i] != s[j],
    ensures
        s.len() <= m,
    decreases m,
{
    if m == 0 {
        if s.len() > 0 {
            assert(s[0] < m);
            assert(false);
        }
    } else if m - 1 > usize::MAX {
        assert forall|i: int| 0 <= i < s.len() implies (#[trigger] s[i]) < m - 1 by {
            assert(s[i] <= usize::MAX);
        }
        lemma_distinct_bounded_len(s, (m - 1) as nat);
    } else if exists|p: int| 0 <= p < s.len() && s[p] == (m - 1) as usize {
        let p = choose|p: int| 0 <= p < s.len() && s[p] == (m - 1) as usize;
        let s2 = s.subrange(0, p) + s.subrange(p + 1, s.len() as int);
        assert forall|i: int| 0 <= i < s2.len() implies (#[trigger] s2[i]) < m - 1 by {
            if i < p {
                assert(s2[i] == s[i]);
                assert(s[i] != s[p]);
            } else {
                assert(s2[i] == s[i + 1]);
                assert(s[i + 1] != s[p]);
            }
        }
        assert forall|i: int, j: int| 0 <= i < j < s2.len() implies s2[i] != s2[j] by {
            if j < p {
                assert(s2[i] == s[i] && s2[j] == s[j]);
            } else if i < p {
                assert(s2[i] == s[i] && s2[j] == s[j + 1]);
            } else {
                assert(s2[i] == s[i + 1] && s2[j] == s[j + 1]);
            }
        }
        lemma_distinct_bounded_len(s2, (m - 1) as nat);
    } else {
        assert forall|i: int| 0 <= i < s.len() implies (#[trigger] s[i]) < m - 1 by {
            assert(s[i] != (m - 1) as usize);
        }
        lemma_distinct_bounded_len(s, (m - 1) as nat);
    }
}

/// A sequence of `n` pairwise-distinct values below `n` contains every
/// value below `n`.
proof fn lemma_distinct_bounded_contains(s: Seq<usize>, n: nat, x: usize)
    requires
        s.len() == n,
        forall|i: int| 0 <= i < s.len() ==> (#[trigger] s[i]) < n,
        forall|i: int, j: int| 0 <= i < j < s.len() ==> s[i] != s[j],
        x < n,
    ensures
        s.contains(x),
{
    if !s.contains(x) {
        let t = Seq::new(
            s.len(),
            |i: int|
                if s[i] > x {
                    (s[i] - 1) as usize
                } else {
                    s[i]
                },
        );
        assert forall|i: int| 0 <= i < t.len() implies (#[trigger] t[i]) < n - 1 by {
            assert(s[i] != x);
        }
        assert forall|i: int, j: int| 0 <= i < j < t.len() implies t[i] != t[j] by {
            assert(s[i] != x && s[j] != x && s[i] != s[j]);
        }
        lemma_distinct_bounded_len(t, (n - 1) as nat);
    }
}

/// Strict sortedness makes a turn order's entries pairwise distinct.
proof fn lemma_turn_order_distinct(order: Seq<usize>, roster: Seq<CombatantView>)
    requires
        spec_is_turn_order(order, roster),
    ensures
        forall|i: int, j: int| 0 <= i < j < order.len() ==> order[i] != order[j],
{
    assert forall|i: int, j: int| 0 <= i < j < order.len() implies order[i] != order[j] by {
        assert(spec_turn_precedes(roster, order[i] as int, order[j] as int));
    }
}

proof fn lemma_turn_order_prefix_eq(
    a: Seq<usize>,
    b: Seq<usize>,
    roster: Seq<CombatantView>,
    j: int,
)
    requires
        spec_is_turn_order(a, roster),
        spec_is_turn_order(b, roster),
        0 <= j <= a.len(),
    ensures
        forall|i: int| 0 <= i < j ==> a[i] == b[i],
    decreases j,
{
    if j > 0 {
        lemma_turn_order_prefix_eq(a, b, roster, j - 1);
        lemma_turn_order_distinct(a, roster);
        lemma_turn_order_distinct(b, roster);
        if a[j - 1] != b[j - 1] {
            let n = roster.len();
            lemma_distinct_bounded_contains(b, n, a[j - 1]);
            let p = choose|p: int| 0 <= p < b.len() && b[p] == a[j - 1];
            if p < j - 1 {
                assert(a[p] == b[p]);
                assert(a[p] == a[j - 1]);
                assert(false);
            }
            assert(p > j - 1);
            assert(spec_turn_precedes(roster, b[j - 1] as int, b[p] as int));
            lemma_distinct_bounded_contains(a, n, b[j - 1]);
            let q = choose|q: int| 0 <= q < a.len() && a[q] == b[j - 1];
            if q < j - 1 {
                assert(b[q] == a[q]);
                assert(b[q] == b[j - 1]);
                assert(false);
            }
            assert(q > j - 1);
            assert(spec_turn_precedes(roster, a[j - 1] as int, a[q] as int));
            assert(spec_turn_precedes(roster, b[j - 1] as int, a[j - 1] as int));
            assert(spec_turn_precedes(roster, a[j - 1] as int, b[j - 1] as int));
            assert(false);
        }
    }
}

/// Turn-order determinism (law): a roster has exactly one valid turn
/// order — any two sequences sorted by descending effective Agility with
/// ties in roster order are equal.
pub proof fn lemma_turn_order_unique(a: Seq<usize>, b: Seq<usize>, roster: Seq<CombatantView>)
    requires
        spec_is_turn_order(a, roster),
        spec_is_turn_order(b, roster),
    ensures
        a == b,
{
    lemma_turn_order_prefix_eq(a, b, roster, a.len() as int);
    assert(a =~= b);
}

/// Whether the combatant indexed `a` acts before the one indexed `b`, read
/// off the precomputed agility table.
fn exec_precedes(agility: &Vec<u32>, a: usize, b: usize) -> (r: bool)
    requires
        a < agility.len(),
        b < agility.len(),
    ensures
        r == (agility@[a as int] > agility@[b as int] || (agility@[a as int] == agility@[b as int]
            && a < b)),
{
    agility[a] > agility[b] || (agility[a] == agility[b] && a < b)
}

/// Compute the turn order of a roster: the permutation of roster indices
/// sorted by descending effective Agility, stable on ties. It is computed
/// once at encounter start and deliberately never recomputed, so later
/// Agility modifiers do not reorder the remaining turns.
pub fn compute_turn_order(combatants: &Vec<Combatant>) -> (order: Vec<usize>)
    requires
        forall|i: int| 0 <= i < combatants@.len() ==> (#[trigger] combatants@[i]@).wf(),
    ensures
        spec_is_turn_order(order@, roster_view(combatants@)),
{
    let ghost roster = roster_view(combatants@);
    let n = combatants.len();

    let mut agility: Vec<u32> = Vec::new();
    let mut i: usize = 0;
    while i < n
        invariant
            i <= n,
            n == combatants@.len(),
            roster == roster_view(combatants@),
            forall|j: int| 0 <= j < combatants@.len() ==> (#[trigger] combatants@[j]@).wf(),
            agility@.len() == i,
            forall|j: int| 0 <= j < i ==> agility@[j] == roster[j].stat_value(Stat::Agility),
        decreases n - i,
    {
        proof {
            assert(roster[i as int] == combatants@[i as int]@);
        }
        agility.push(combatants[i].get_stat(Stat::Agility));
        i += 1;
    }

    let mut order: Vec<usize> = Vec::new();
    let mut i: usize = 0;
    while i < n
        invariant
            i <= n,
            n == combatants@.len(),
            roster == roster_view(combatants@),
            agility@.len() == n,
            forall|j: int| 0 <= j < n ==> agility@[j] == roster[j].stat_value(Stat::Agility),
            order@.len() == i,
            forall|j: int| 0 <= j < i ==> (#[trigger] order@[j]) < i,
            forall|p: int, q: int|
                0 <= p < q < i ==> spec_turn_precedes(roster, order@[p] as int, order@[q] as int),
        decreases n - i,
    {
        let mut p: usize = 0;
        while p < order.len() && exec_precedes(&agility, order[p], i)
            invariant
                p <= order.len(),
                i < n,
                n == combatants@.len(),
                roster == roster_view(combatants@),
                agility@.len() == n,
                forall|j: int| 0 <= j < n ==> agility@[j] == roster[j].stat_value(Stat::Agility),
                order@.len() == i,
                forall|j: int| 0 <= j < i ==> (#[trigger] order@[j]) < i,
                forall|q: int| 0 <= q < p ==> spec_turn_precedes(roster, order@[q] as int, i as int),
            decreases order.len() - p,
        {
            p += 1;
        }
        proof {
            let o = order@;
            assert forall|q: int| p <= q < o.len() implies spec_turn_precedes(
                roster,
                i as int,
                o[q] as int,
            ) by {
                assert(o[p as int] < i);
                assert(!spec_turn_precedes(roster, o[p as int] as int, i as int));
                assert(spec_turn_precedes(roster, i as int, o[p as int] as int));
                if q > p {
                    assert(spec_turn_precedes(roster, o[p as int] as int, o[q] as int));
                }
            }
        }
        let ghost old_order = order@;
        order.insert(p, i);
        proof {
            let o = order@;
            assert forall|x: int, y: int| 0 <= x < y < o.len() implies spec_turn_precedes(
                roster,
                o[x] as int,
                o[y] as int,
            ) by {
                if y < p {
                    assert(o[x] == old_order[x] && o[y] == old_order[y]);
                } else if x > p {
                    assert(o[x] == old_order[x - 1] && o[y] == old_order[y - 1]);
                } else if x == p {
                    assert(o[x] == i && o[y] == old_order[y - 1]);
                } else if y == p {
                    assert(o[x] == old_order[x] && o[y] == i);
                } else {
                    assert(o[x] == old_order[x] && o[y] == old_order[y - 1]);
                    if x < p && y - 1 >= p {
                        assert(spec_turn_precedes(roster, o[x] as int, i as int));
                        assert(spec_turn_precedes(roster, i as int, o[y] as int));
                    }
                }
            }
            assert forall|j: int| 0 <= j < o.len() implies (#[trigger] o[j]) < i + 1 by {
                if j < p {
                    assert(o[j] == old_order[j]);
                } else if j > p {
                    assert(o[j] == old_order[j - 1]);
                }
            }
        }
        i += 1;
    }
    order
}

} // verus!
