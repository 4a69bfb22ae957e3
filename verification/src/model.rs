//! The engine as a mathematical value.

use vstd::prelude::*;
use crate::interaction::{contribution_models, group_contributions, Contribution, ContributionModel};
use crate::motion::{Area, Kick};
use crate::particle::{distinct, labels_of, GroupModel, ParticleModel};
use crate::rules::{coefficient_in, square_over, RowModel};

verus! {

/// What the engine holds: the groups in the order in which they were first
/// generated, the rule matrix, and the area.
pub struct SystemModel<S> {
    pub groups: Seq<GroupModel<S>>,
    pub rules: Seq<RowModel<S>>,
    pub area: Area,
}

impl<S> SystemModel<S> {
    /// No two groups share a label, and every particle carries the label of
    /// its group.
    pub open spec fn wf(self) -> bool {
        &&& distinct(labels_of(self.groups))
        &&& forall|i: int| 0 <= i < self.groups.len() ==> (#[trigger] self.groups[i]).wf()
    }

    /// The labels of the groups, in order.
    pub open spec fn labels(self) -> Seq<Seq<char>> {
        labels_of(self.groups)
    }

    /// No group holds a particle.
    pub open spec fn is_empty(self) -> bool {
        forall|i: int| 0 <= i < self.groups.len() ==> (#[trigger] self.groups[i]).particles.len() == 0
    }

    /// The same engine with another rule matrix.
    pub open spec fn with_rules(self, rules: Seq<RowModel<S>>) -> SystemModel<S> {
        SystemModel { rules, ..self }
    }

    /// Some group has the label.
    pub open spec fn holds(self, label: Seq<char>) -> bool {
        exists|i: int| 0 <= i < self.groups.len() && (#[trigger] self.groups[i]).label == label
    }

    /// The index of the group with the label, or the number of groups if no
    /// group has it.
    pub open spec fn position(self, label: Seq<char>) -> int {
        if self.holds(label) {
            choose|i: int| 0 <= i < self.groups.len() && (#[trigger] self.groups[i]).label == label
        } else {
            self.groups.len() as int
        }
    }

    /// The same engine with `group` in the place of the group of that label,
    /// or behind the others if no group has it.
    pub open spec fn with_group(self, group: GroupModel<S>) -> SystemModel<S> {
        if self.holds(group.label) {
            SystemModel { groups: self.groups.update(self.position(group.label), group), ..self }
        } else {
            SystemModel { groups: self.groups.push(group), ..self }
        }
    }

    /// Every two groups that both hold particles have a coefficient.
    pub open spec fn rules_cover(self) -> bool {
        forall|i: int, j: int|
            0 <= i < self.groups.len() && 0 <= j < self.groups.len() && (#[trigger] self.groups[i]).particles.len() > 0
                && (#[trigger] self.groups[j]).particles.len() > 0 ==> coefficient_in(
                self.rules,
                self.groups[i].label,
                self.groups[j].label,
            ).is_some()
    }

    /// What the particles of group `j` add to the force on `a`: nothing if
    /// the rule matrix has no coefficient for the two groups.
    pub open spec fn contributions_from(self, a: ParticleModel<S>, j: int) -> Seq<ContributionModel<S>> {
        match coefficient_in(self.rules, a.group, self.groups[j].label) {
            Some(g) => group_contributions(a, self.groups[j].particles, g, self.groups[j].particles.len()),
            None => Seq::empty(),
        }
    }

    /// What the particles of the first `n` groups add to the force on `a`.
    pub open spec fn contributions_upto(self, a: ParticleModel<S>, n: nat) -> Seq<ContributionModel<S>>
        decreases n,
    {
        if n == 0 {
            Seq::empty()
        } else {
            self.contributions_upto(a, (n - 1) as nat) + self.contributions_from(a, n - 1)
        }
    }

    /// What the whole population adds to the force on `a`: one contribution
    /// for each particle in reach of `a` whose group has a coefficient with
    /// the group of `a`, group by group and particle by particle.
    pub open spec fn contributions(self, a: ParticleModel<S>) -> Seq<ContributionModel<S>> {
        self.contributions_upto(a, self.groups.len())
    }

    /// The same engine without groups.
    pub open spec fn cleared(self) -> SystemModel<S> {
        SystemModel { groups: Seq::empty(), ..self }
    }
}

/// The group `label` whose particles stand at `positions`, in that order, and
/// all have `velocity` on both axes.
pub open spec fn placed_group<S>(label: Seq<char>, positions: Seq<(i32, i32)>, velocity: S) -> GroupModel<S> {
    GroupModel {
        label,
        particles: Seq::new(
            positions.len(),
            |i: int|
                ParticleModel {
                    x: positions[i].0 as int,
                    y: positions[i].1 as int,
                    vx: velocity,
                    vy: velocity,
                    group: label,
                },
        ),
    }
}

/// A particle of a newly generated group: inside the area, with velocity
/// `rest` on both axes, and with the group's label.
pub open spec fn newborn<S>(p: ParticleModel<S>, label: Seq<char>, rest: S, area: Area) -> bool {
    &&& 0 <= p.x < area.width
    &&& 0 <= p.y < area.height
    &&& p.vx == rest
    &&& p.vy == rest
    &&& p.group == label
}

/// A newly generated group: `count` newborn particles under `label`.
pub open spec fn fresh_group<S>(group: GroupModel<S>, label: Seq<char>, count: nat, rest: S, area: Area) -> bool {
    &&& group.label == label
    &&& group.particles.len() == count
    &&& forall|i: int| 0 <= i < group.particles.len() ==> newborn(#[trigger] group.particles[i], label, rest, area)
}

/// The labels among the first `n` of `labels`, each once, in the order in
/// which they first occur.
pub open spec fn first_occurrences(labels: Seq<Seq<char>>, n: nat) -> Seq<Seq<char>>
    decreases n,
{
    if n == 0 {
        Seq::empty()
    } else {
        let before = first_occurrences(labels, (n - 1) as nat);
        if before.contains(labels[n - 1]) {
            before
        } else {
            before.push(labels[n - 1])
        }
    }
}

/// Engine `post` is `pre` after all its groups were dropped and the groups
/// `labels` generated anew with `count` particles each, and then the rules:
/// there is one group for each label that occurs in `labels`, in the order of
/// first occurrence, every group is newly generated, and the rule matrix is
/// newly drawn over the labels of the groups.
pub open spec fn repopulated<S, D: Fn() -> S>(
    pre: SystemModel<S>,
    post: SystemModel<S>,
    labels: Seq<Seq<char>>,
    count: nat,
    rest: S,
    draw: D,
) -> bool {
    &&& post.area == pre.area
    &&& post.labels() == first_occurrences(labels, labels.len())
    &&& forall|g: int|
        0 <= g < post.groups.len() ==> fresh_group(
            #[trigger] post.groups[g],
            post.groups[g].label,
            count,
            rest,
            pre.area,
        )
    &&& square_over(post.rules, post.labels(), draw)
}

/// Particle `post` is what `pre` becomes under kick `k`: it lands where the
/// kick takes it, keeps its group, and has the kick's velocity, reversed by
/// `reverse` on each axis on which it bounced.
pub open spec fn settled<S, R: Fn(S) -> S>(
    pre: ParticleModel<S>,
    post: ParticleModel<S>,
    k: Kick<S>,
    area: Area,
    reverse: R,
) -> bool {
    match area.landing(pre.x, pre.y, k.dx as int, k.dy as int) {
        Some(l) => {
            &&& post.x == l.x
            &&& post.y == l.y
            &&& post.group == pre.group
            &&& if l.flip_x {
                call_ensures(reverse, (k.vx,), post.vx)
            } else {
                post.vx == k.vx
            }
            &&& if l.flip_y {
                call_ensures(reverse, (k.vy,), post.vy)
            } else {
                post.vy == k.vy
            }
        },
        None => false,
    }
}

/// Particle `post` is what `pre` becomes in one tick: `integrate` was given
/// the velocity of `pre` and `contributions`, and `post` is settled under the
/// kick that it returned.
pub open spec fn moved<S, I: Fn(S, S, &Vec<Contribution<S>>) -> Kick<S>, R: Fn(S) -> S>(
    pre: ParticleModel<S>,
    post: ParticleModel<S>,
    contributions: Seq<ContributionModel<S>>,
    area: Area,
    integrate: I,
    reverse: R,
) -> bool {
    exists|v: Vec<Contribution<S>>, k: Kick<S>|
        contribution_models(v@) == contributions && #[trigger] call_ensures(integrate, (pre.vx, pre.vy, &v), k)
            && settled(pre, post, k, area, reverse)
}

/// Some particle of the engine cannot be moved: `integrate`, given the
/// particle's velocity and what the population adds to the force on it, may
/// return a kick that takes the particle out of the range of coordinates.
pub open spec fn stranded<S, I: Fn(S, S, &Vec<Contribution<S>>) -> Kick<S>>(
    system: SystemModel<S>,
    integrate: I,
) -> bool {
    exists|g: int, p: int, v: Vec<Contribution<S>>, k: Kick<S>|
        0 <= g < system.groups.len() && 0 <= p < system.groups[g].particles.len() && contribution_models(v@)
            == system.contributions(system.groups[g].particles[p]) && #[trigger] call_ensures(
            integrate,
            (system.groups[g].particles[p].vx, system.groups[g].particles[p].vy, &v),
            k,
        ) && system.area.landing(
            system.groups[g].particles[p].x,
            system.groups[g].particles[p].y,
            k.dx as int,
            k.dy as int,
        ).is_none()
}

/// Group `post` is what group `pre` of engine `system` becomes in one tick.
pub open spec fn group_ticked<S, I: Fn(S, S, &Vec<Contribution<S>>) -> Kick<S>, R: Fn(S) -> S>(
    system: SystemModel<S>,
    pre: GroupModel<S>,
    post: GroupModel<S>,
    integrate: I,
    reverse: R,
) -> bool {
    &&& post.label == pre.label
    &&& post.particles.len() == pre.particles.len()
    &&& forall|p: int|
        0 <= p < pre.particles.len() ==> moved(
            pre.particles[p],
            #[trigger] post.particles[p],
            system.contributions(pre.particles[p]),
            system.area,
            integrate,
            reverse,
        )
}

/// Engine `post` is what `pre` becomes in one tick: every particle has moved
/// under the forces of the population as it was in `pre`; the rules and the
/// area are as they were.
pub open spec fn ticked<S, I: Fn(S, S, &Vec<Contribution<S>>) -> Kick<S>, R: Fn(S) -> S>(
    pre: SystemModel<S>,
    post: SystemModel<S>,
    integrate: I,
    reverse: R,
) -> bool {
    &&& post.rules == pre.rules
    &&& post.area == pre.area
    &&& post.groups.len() == pre.groups.len()
    &&& forall|g: int|
        0 <= g < pre.groups.len() ==> group_ticked(pre, pre.groups[g], #[trigger] post.groups[g], integrate, reverse)
}

} // verus!
