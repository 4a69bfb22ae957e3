//! What holds of the engine whatever it is given.

use vstd::prelude::*;
use crate::interaction::{
    contribution_of, distance_squared, group_contributions, in_reach, Contribution, ContributionModel,
    INTERACTION_RADIUS,
};
use crate::model::{
    first_occurrences, fresh_group, group_ticked, moved, repopulated, settled, ticked, SystemModel,
};
use crate::motion::{outside, Area, Kick};
use crate::particle::{GroupModel, ParticleModel};
use crate::rules::{coefficient_in, lemma_square_covers, RowModel};

verus! {

/// Every particle of a newly generated group lies inside the area and is at
/// rest.
pub proof fn lemma_fresh_particles<S>(
    group: GroupModel<S>,
    label: Seq<char>,
    count: nat,
    rest: S,
    area: Area,
    i: int,
)
    requires
        fresh_group(group, label, count, rest, area),
        0 <= i < count,
    ensures
        0 <= group.particles[i].x < area.width,
        0 <= group.particles[i].y < area.height,
        group.particles[i].vx == rest,
        group.particles[i].vy == rest,
{
}

/// A tick of an engine that holds no particle changes nothing.
pub proof fn lemma_tick_of_empty<S, I: Fn(S, S, &Vec<Contribution<S>>) -> Kick<S>, R: Fn(S) -> S>(
    pre: SystemModel<S>,
    post: SystemModel<S>,
    integrate: I,
    reverse: R,
)
    requires
        pre.is_empty(),
        ticked(pre, post, integrate, reverse),
    ensures
        post == pre,
{
    assert forall|g: int| 0 <= g < pre.groups.len() implies post.groups[g] == pre.groups[g] by {
        assert(group_ticked(pre, pre.groups[g], post.groups[g], integrate, reverse));
        assert(pre.groups[g].particles.len() == 0);
        assert(post.groups[g].particles =~= pre.groups[g].particles);
    }
    assert(post.groups =~= pre.groups);
}

/// A neighbour at the same place, or at a distance of the radius or more,
/// adds nothing to the force on a particle; any other neighbour adds one
/// contribution, with the offset between the two.
pub proof fn lemma_reach<S>(a: ParticleModel<S>, b: ParticleModel<S>, coefficient: S)
    ensures
        distance_squared(a.x - b.x, a.y - b.y) == 0 ==> contribution_of(a, b, coefficient).is_none(),
        distance_squared(a.x - b.x, a.y - b.y) >= INTERACTION_RADIUS * INTERACTION_RADIUS ==> contribution_of(
            a,
            b,
            coefficient,
        ).is_none(),
        0 < distance_squared(a.x - b.x, a.y - b.y) < INTERACTION_RADIUS * INTERACTION_RADIUS ==> contribution_of(
            a,
            b,
            coefficient,
        ) == Some(
            ContributionModel {
                coefficient,
                dx: a.x - b.x,
                dy: a.y - b.y,
                distance_squared: distance_squared(a.x - b.x, a.y - b.y),
            },
        ),
{
}

/// Particles of which none is in reach of `a` add nothing to the force on it.
pub proof fn lemma_group_out_of_reach<S>(a: ParticleModel<S>, others: Seq<ParticleModel<S>>, coefficient: S, n: nat)
    requires
        n <= others.len(),
        forall|k: int| 0 <= k < n ==> !in_reach(a.x - (#[trigger] others[k]).x, a.y - others[k].y),
    ensures
        group_contributions(a, others, coefficient, n) == Seq::<ContributionModel<S>>::empty(),
    decreases n,
{
    if n > 0 {
        lemma_group_out_of_reach(a, others, coefficient, (n - 1) as nat);
        assert(!in_reach(a.x - others[n - 1].x, a.y - others[n - 1].y));
    }
}

/// If no particle among the first `n` groups is in reach of `a`, those groups
/// add nothing to the force on it.
pub proof fn lemma_groups_out_of_reach<S>(system: SystemModel<S>, a: ParticleModel<S>, n: nat)
    requires
        n <= system.groups.len(),
        forall|g: int, p: int|
            0 <= g < n && 0 <= p < system.groups[g].particles.len() ==> !in_reach(
                a.x - (#[trigger] system.groups[g].particles[p]).x,
                a.y - system.groups[g].particles[p].y,
            ),
    ensures
        system.contributions_upto(a, n) == Seq::<ContributionModel<S>>::empty(),
    decreases n,
{
    if n > 0 {
        lemma_groups_out_of_reach(system, a, (n - 1) as nat);
        let others = system.groups[n - 1].particles;
        match coefficient_in(system.rules, a.group, system.groups[n - 1].label) {
            Some(c) => {
                assert forall|k: int| 0 <= k < others.len() implies !in_reach(
                    a.x - (#[trigger] others[k]).x,
                    a.y - others[k].y,
                ) by {
                    assert(others[k] == system.groups[n - 1].particles[k]);
                }
                lemma_group_out_of_reach(a, others, c, others.len());
            },
            None => {},
        }
        assert(system.contributions_upto(a, n) =~= Seq::<ContributionModel<S>>::empty());
    }
}

/// If no particle of the population is in reach of `a`, the population adds
/// nothing to the force on `a`.
pub proof fn lemma_out_of_reach<S>(system: SystemModel<S>, a: ParticleModel<S>)
    requires
        forall|g: int, p: int|
            0 <= g < system.groups.len() && 0 <= p < system.groups[g].particles.len() ==> !in_reach(
                a.x - (#[trigger] system.groups[g].particles[p]).x,
                a.y - system.groups[g].particles[p].y,
            ),
    ensures
        system.contributions(a) == Seq::<ContributionModel<S>>::empty(),
{
    lemma_groups_out_of_reach(system, a, system.groups.len());
}

/// A particle that lands inside the margins on both axes keeps the velocity
/// of its kick: the boundary does not reverse it.
pub proof fn lemma_inside_keeps_velocity<S, R: Fn(S) -> S>(
    pre: ParticleModel<S>,
    post: ParticleModel<S>,
    k: Kick<S>,
    area: Area,
    reverse: R,
)
    requires
        settled(pre, post, k, area, reverse),
        area.margins.low <= pre.x + k.dx <= area.width - area.margins.high,
        area.margins.low <= pre.y + k.dy <= area.height - area.margins.high,
    ensures
        post.vx == k.vx,
        post.vy == k.vy,
        post.x == pre.x + k.dx,
        post.y == pre.y + k.dy,
{
}

/// A particle at the low edge of the horizontal axis that does not move to
/// the right has its horizontal velocity reversed, provided that the low
/// margin is positive, or that it is zero and the particle moves by a unit
/// at least.
pub proof fn lemma_low_edge_reverses<S, R: Fn(S) -> S>(
    pre: ParticleModel<S>,
    post: ParticleModel<S>,
    k: Kick<S>,
    area: Area,
    reverse: R,
)
    requires
        settled(pre, post, k, area, reverse),
        pre.x == 0,
        k.dx <= 0,
        area.margins.low > 0 || (area.margins.low == 0 && k.dx < 0),
    ensures
        call_ensures(reverse, (k.vx,), post.vx),
{
    assert(outside(pre.x + k.dx, area.width as int, area.margins.low as int, area.margins.high as int));
}

/// Every label among the first `n` of `labels` is among their first
/// occurrences, and each of these is one of the first `n` labels.
pub proof fn lemma_first_occurrences(labels: Seq<Seq<char>>, n: nat)
    requires
        n <= labels.len(),
    ensures
        forall|i: int| 0 <= i < n ==> first_occurrences(labels, n).contains(#[trigger] labels[i]),
        forall|k: int|
            0 <= k < first_occurrences(labels, n).len() ==> exists|j: int|
                0 <= j < n && #[trigger] labels[j] == (#[trigger] first_occurrences(labels, n)[k]),
    decreases n,
{
    if n > 0 {
        lemma_first_occurrences(labels, (n - 1) as nat);
        let before = first_occurrences(labels, (n - 1) as nat);
        let now = first_occurrences(labels, n);
        assert forall|i: int| 0 <= i < n implies now.contains(#[trigger] labels[i]) by {
            if i < n - 1 {
                let k = choose|k: int| 0 <= k < before.len() && before[k] == labels[i];
                assert(now[k] == labels[i]);
            } else if before.contains(labels[n - 1]) {
            } else {
                assert(now[before.len() as int] == labels[i]);
            }
        }
        assert forall|k: int| 0 <= k < now.len() implies exists|j: int|
            0 <= j < n && #[trigger] labels[j] == (#[trigger] now[k]) by {
            if k < before.len() {
                assert(now[k] == before[k]);
                let j = choose|j: int| 0 <= j < n - 1 && #[trigger] labels[j] == before[k];
                assert(0 <= j < n && labels[j] == now[k]);
            } else {
                assert(labels[n - 1] == now[k]);
            }
        }
    }
}

/// After the population was generated anew with no particle per group, every
/// requested label has a group, no group holds a particle, and every ordered
/// pair of requested labels has a coefficient, which `draw` returned.
pub proof fn lemma_repopulated_empty<S, D: Fn() -> S>(
    pre: SystemModel<S>,
    post: SystemModel<S>,
    labels: Seq<Seq<char>>,
    rest: S,
    draw: D,
    a: int,
    b: int,
)
    requires
        repopulated(pre, post, labels, 0, rest, draw),
        0 <= a < labels.len(),
        0 <= b < labels.len(),
    ensures
        post.is_empty(),
        post.holds(labels[a]),
        coefficient_in(post.rules, labels[a], labels[b]).is_some(),
        call_ensures(draw, (), coefficient_in(post.rules, labels[a], labels[b]).unwrap()),
{
    lemma_repopulated_covers(pre, post, labels, 0, rest, draw, a, b);
}

/// After the population was generated anew, every requested label has a
/// group of the requested size, and every ordered pair of requested labels
/// has a coefficient, which `draw` returned.
pub proof fn lemma_repopulated_covers<S, D: Fn() -> S>(
    pre: SystemModel<S>,
    post: SystemModel<S>,
    labels: Seq<Seq<char>>,
    count: nat,
    rest: S,
    draw: D,
    a: int,
    b: int,
)
    requires
        repopulated(pre, post, labels, count, rest, draw),
        0 <= a < labels.len(),
        0 <= b < labels.len(),
    ensures
        forall|g: int| 0 <= g < post.groups.len() ==> (#[trigger] post.groups[g]).particles.len() == count,
        post.holds(labels[a]),
        coefficient_in(post.rules, labels[a], labels[b]).is_some(),
        call_ensures(draw, (), coefficient_in(post.rules, labels[a], labels[b]).unwrap()),
{
    lemma_first_occurrences(labels, labels.len());
    let names = post.labels();
    let i = choose|i: int| 0 <= i < names.len() && names[i] == labels[a];
    let j = choose|j: int| 0 <= j < names.len() && names[j] == labels[b];
    assert(post.groups[i].label == labels[a]);
    lemma_square_covers(post.rules, names, draw, i, j);
}

/// The rule matrix that is read after rules were put in place is the matrix
/// that was supplied, and the groups are as they were.
pub proof fn lemma_rules_read_back<S>(system: SystemModel<S>, rules: Seq<RowModel<S>>)
    ensures
        system.with_rules(rules).rules == rules,
        system.with_rules(rules).groups == system.groups,
        system.with_rules(rules).area == system.area,
{
}

/// A tick moves every particle against the population as it stood before the
/// tick and changes neither the number of groups, nor their labels, nor the
/// number of particles of a group, nor the rules.
pub proof fn lemma_tick_is_whole<S, I: Fn(S, S, &Vec<Contribution<S>>) -> Kick<S>, R: Fn(S) -> S>(
    pre: SystemModel<S>,
    post: SystemModel<S>,
    integrate: I,
    reverse: R,
    g: int,
    p: int,
)
    requires
        ticked(pre, post, integrate, reverse),
        0 <= g < pre.groups.len(),
        0 <= p < pre.groups[g].particles.len(),
    ensures
        post.rules == pre.rules,
        post.groups.len() == pre.groups.len(),
        post.groups[g].label == pre.groups[g].label,
        post.groups[g].particles.len() == pre.groups[g].particles.len(),
        moved(
            pre.groups[g].particles[p],
            post.groups[g].particles[p],
            pre.contributions(pre.groups[g].particles[p]),
            pre.area,
            integrate,
            reverse,
        ),
{
    assert(group_ticked(pre, pre.groups[g], post.groups[g], integrate, reverse));
}

} // verus!
