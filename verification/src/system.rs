//! The engine: the groups of particles, the rule matrix and the area that
//! bounds them.

use vstd::prelude::*;
use crate::error::EngineError;
use crate::interaction::{contribution, contribution_models, group_contributions, Contribution};
use crate::laws::lemma_tick_of_empty;
use crate::model::{
    first_occurrences, fresh_group, group_ticked, moved, placed_group, repopulated, settled, stranded, ticked,
    SystemModel,
};
use crate::motion::{Area, Kick, Margins};
use crate::particle::{group_models, labels_of, Group, GroupModel, Particle};
use crate::random::{random_between, thread_generator};
use crate::rules::{
    coefficient_in, label_views, lemma_square_covers, lemma_square_unambiguous, square_over, unambiguous, RowModel,
    RuleMatrix,
};

verus! {

/// The largest number of particles that a group can hold on any machine. A
/// particle takes at least the eight bytes of its position, and no vector
/// takes more than `isize::MAX` bytes; this is `isize::MAX / 8`. A request
/// for more particles per group is refused; whether a machine has the memory
/// for a smaller number is not the engine's to say.
pub const MAX_GROUP_SIZE: usize = usize::MAX / 16;

/// The simulation engine.
pub struct ParticleSystem<S> {
    groups: Vec<Group<S>>,
    rules: RuleMatrix<S>,
    area: Area,
}

impl<S> View for ParticleSystem<S> {
    type V = SystemModel<S>;

    closed spec fn view(&self) -> SystemModel<S> {
        SystemModel { groups: group_models(self.groups@), rules: self.rules@, area: self.area }
    }
}

impl<S: Copy> ParticleSystem<S> {
    /// What holds of every engine between two operations.
    pub open spec fn wf(&self) -> bool {
        self@.wf()
    }

    /// An engine without groups or rules on an area of the given size, with
    /// the standard margins.
    pub fn new(width: i32, height: i32) -> (system: Self)
        ensures
            system.wf(),
            system@.groups == Seq::<GroupModel<S>>::empty(),
            system@.rules == Seq::<RowModel<S>>::empty(),
            system@.area == (Area { width, height, margins: Margins::standard_spec() }),
    {
        Self::with_margins(width, height, Margins::standard())
    }

    /// An engine without groups or rules on an area of the given size, in
    /// which particles bounce at the given margins.
    pub fn with_margins(width: i32, height: i32, margins: Margins) -> (system: Self)
        ensures
            system.wf(),
            system@.groups == Seq::<GroupModel<S>>::empty(),
            system@.rules == Seq::<RowModel<S>>::empty(),
            system@.area == (Area { width, height, margins }),
    {
        let area = Area { width, height, margins };
        let system = ParticleSystem { groups: Vec::new(), rules: RuleMatrix::new(), area };
        assert(system@.groups =~= Seq::<GroupModel<S>>::empty());
        system
    }

    /// The number of groups.
    pub fn group_count(&self) -> (n: usize)
        ensures
            n == self@.groups.len(),
    {
        self.groups.len()
    }

    /// The area in which the particles move.
    pub fn area(&self) -> (area: Area)
        ensures
            area == self@.area,
    {
        self.area
    }

    /// A copy of every group, in order.
    pub fn get_particles(&self) -> (snapshot: Vec<Group<S>>)
        ensures
            group_models(snapshot@) == self@.groups,
    {
        let mut snapshot: Vec<Group<S>> = Vec::new();
        let mut i: usize = 0;
        while i < self.groups.len()
            invariant
                i <= self.groups.len(),
                snapshot@.len() == i,
                forall|k: int| 0 <= k < i ==> (#[trigger] snapshot@[k])@ == self.groups@[k]@,
            decreases self.groups.len() - i,
        {
            snapshot.push(self.groups[i].clone());
            i += 1;
        }
        assert(group_models(snapshot@) =~= self@.groups);
        snapshot
    }

    /// A copy of the rule matrix.
    pub fn get_rules(&self) -> (rules: RuleMatrix<S>)
        ensures
            rules@ == self@.rules,
    {
        self.rules.clone()
    }

    /// Puts `rules` in the place of the rule matrix, as it is.
    pub fn replace_rules(&mut self, rules: RuleMatrix<S>)
        requires
            old(self).wf(),
        ensures
            final(self).wf(),
            final(self)@ == old(self)@.with_rules(rules@),
    {
        self.rules = rules;
    }

    /// The index of the group with the label.
    pub fn find_group(&self, label: &String) -> (found: Option<usize>)
        requires
            self.wf(),
        ensures
            found.is_some() == self@.holds(label@),
            found.is_some() ==> found.unwrap() == self@.position(label@),
    {
        let mut i: usize = 0;
        while i < self.groups.len()
            invariant
                self.wf(),
                i <= self.groups.len(),
                forall|k: int| 0 <= k < i ==> (#[trigger] self@.groups[k]).label != label@,
            decreases self.groups.len() - i,
        {
            if self.groups[i].label == *label {
                proof {
                    assert(self@.groups[i as int].label == label@);
                    let c = self@.position(label@);
                    assert(labels_of(self@.groups)[c] == labels_of(self@.groups)[i as int]);
                }
                return Some(i);
            }
            assert(self@.groups[i as int].label != label@);
            i += 1;
        }
        None
    }

    /// A random coordinate on the horizontal axis of the area.
    pub fn rand_x(&self, rng: &mut rand::rngs::ThreadRng) -> (x: i32)
        requires
            self@.area.width > 0,
        ensures
            0 <= x < self@.area.width,
    {
        random_between(rng, 0, self.area.width)
    }

    /// A random coordinate on the vertical axis of the area.
    pub fn rand_y(&self, rng: &mut rand::rngs::ThreadRng) -> (y: i32)
        requires
            self@.area.height > 0,
        ensures
            0 <= y < self@.area.height,
    {
        random_between(rng, 0, self.area.height)
    }

    /// Makes the particles at `positions`, each with `velocity` on both axes,
    /// the group `label`. They take the place of the group's particles if the
    /// group exists; else the group comes behind the others.
    pub fn place_group(&mut self, label: &str, positions: &Vec<(i32, i32)>, velocity: S)
        requires
            old(self).wf(),
        ensures
            final(self).wf(),
            final(self)@ == old(self)@.with_group(placed_group(label@, positions@, velocity)),
            final(self)@.groups[old(self)@.position(label@)] == placed_group(label@, positions@, velocity),
    {
        let mut particles: Vec<Particle<S>> = Vec::new();
        let mut i: usize = 0;
        while i < positions.len()
            invariant
                i <= positions.len(),
                particles@.len() == i,
                forall|k: int|
                    0 <= k < i ==> (#[trigger] particles@[k])@ == placed_group(
                        label@,
                        positions@,
                        velocity,
                    ).particles[k],
            decreases positions.len() - i,
        {
            particles.push(Particle::new(positions[i].0, positions[i].1, velocity, label.to_owned()));
            i += 1;
        }
        let owned = label.to_owned();
        let found = self.find_group(&owned);
        let group = Group { label: owned, particles };
        let ghost pre = self@;
        let ghost at = pre.position(label@);
        assert(group@.particles =~= placed_group(label@, positions@, velocity).particles);
        match found {
            Some(at) => {
                self.groups[at] = group;
                assert(self@.groups =~= pre.groups.update(at as int, group@));
            },
            None => {
                self.groups.push(group);
                assert(self@.groups =~= pre.groups.push(group@));
            },
        }
        proof {
            assert(self@.groups[at] == group@);
            assert forall|a: int, b: int| 0 <= a < b < self@.groups.len() implies labels_of(self@.groups)[a]
                != labels_of(self@.groups)[b] by {
                if a != at && b != at {
                    assert(labels_of(pre.groups)[a] != labels_of(pre.groups)[b]);
                } else if found.is_some() {
                    assert(labels_of(pre.groups)[a] != labels_of(pre.groups)[b]);
                } else {
                    assert(pre.groups[a].label != label@);
                }
            }
            assert forall|k: int| 0 <= k < self@.groups.len() implies (#[trigger] self@.groups[k]).wf() by {
                if k != at {
                    assert(pre.groups[k].wf());
                }
            }
        }
    }

    /// Generates `num` particles at random positions inside the area, each
    /// with velocity `rest` on both axes, as the group `label`. They take the
    /// place of the group's particles if the group exists; else the group
    /// comes behind the others.
    pub fn create_particles(&mut self, num: usize, label: &str, rest: S)
        requires
            old(self).wf(),
            num > 0 ==> old(self)@.area.width > 0 && old(self)@.area.height > 0,
        ensures
            final(self).wf(),
            final(self)@.holds(label@),
            fresh_group(
                final(self)@.groups[old(self)@.position(label@)],
                label@,
                num as nat,
                rest,
                old(self)@.area,
            ),
            final(self)@ == old(self)@.with_group(final(self)@.groups[old(self)@.position(label@)]),
    {
        let mut rng = thread_generator();
        let mut positions: Vec<(i32, i32)> = Vec::new();
        let mut i: usize = 0;
        while i < num
            invariant
                *self == *old(self),
                num > 0 ==> self@.area.width > 0 && self@.area.height > 0,
                i <= num,
                positions@.len() == i,
                forall|k: int|
                    0 <= k < i ==> 0 <= (#[trigger] positions@[k]).0 < self@.area.width && 0 <= positions@[k].1
                        < self@.area.height,
            decreases num - i,
        {
            let x = self.rand_x(&mut rng);
            let y = self.rand_y(&mut rng);
            positions.push((x, y));
            i += 1;
        }
        self.place_group(label, &positions, rest);
        proof {
            let at = old(self)@.position(label@);
            assert(self@.groups[at].label == label@);
        }
    }

    /// The labels of the groups, in order.
    pub fn labels(&self) -> (labels: Vec<String>)
        ensures
            label_views(labels@) == self@.labels(),
    {
        let mut labels: Vec<String> = Vec::new();
        let mut i: usize = 0;
        while i < self.groups.len()
            invariant
                i <= self.groups.len(),
                labels@.len() == i,
                forall|k: int| 0 <= k < i ==> (#[trigger] labels@[k])@ == self.groups@[k].label@,
            decreases self.groups.len() - i,
        {
            labels.push(self.groups[i].label.clone());
            i += 1;
        }
        assert(label_views(labels@) =~= self@.labels());
        labels
    }

    /// Puts a new rule matrix in the place of the old one: one coefficient
    /// for every ordered pair of the labels of the groups, a label paired
    /// with itself included, each drawn by a call of `draw` of its own.
    pub fn create_rules<D: Fn() -> S>(&mut self, draw: D)
        requires
            old(self).wf(),
            call_requires(draw, ()),
        ensures
            final(self).wf(),
            final(self)@ == old(self)@.with_rules(final(self)@.rules),
            square_over(final(self)@.rules, old(self)@.labels(), draw),
            forall|i: int, j: int|
                0 <= i < old(self)@.groups.len() && 0 <= j < old(self)@.groups.len() ==> {
                    let c = #[trigger] coefficient_in(
                        final(self)@.rules,
                        old(self)@.groups[i].label,
                        old(self)@.groups[j].label,
                    );
                    c.is_some() && call_ensures(draw, (), c.unwrap())
                },
            final(self)@.rules_cover(),
            unambiguous(final(self)@.rules),
    {
        let labels = self.labels();
        self.rules = RuleMatrix::square(&labels, draw);
        proof {
            let rows = self@.rules;
            let names = old(self)@.labels();
            lemma_square_unambiguous(rows, names, draw);
            assert forall|i: int, j: int|
                0 <= i < old(self)@.groups.len() && 0 <= j < old(self)@.groups.len() implies {
                let c = #[trigger] coefficient_in(rows, old(self)@.groups[i].label, old(self)@.groups[j].label);
                c.is_some() && call_ensures(draw, (), c.unwrap())
            } by {
                lemma_square_covers(rows, names, draw, i, j);
            }
        }
    }

    /// Drops every group. The rules stay.
    pub fn clear(&mut self)
        requires
            old(self).wf(),
        ensures
            final(self).wf(),
            final(self)@ == old(self)@.cleared(),
    {
        self.groups = Vec::new();
        assert(self@.groups =~= Seq::empty());
    }

    /// Drops every group, generates each group of `labels` anew with
    /// `new_count` particles, and then the rules. A count above
    /// [`MAX_GROUP_SIZE`] is refused, and the engine stays as it is.
    pub fn resize_population<D: Fn() -> S>(
        &mut self,
        new_count: usize,
        labels: &Vec<String>,
        rest: S,
        draw: D,
    ) -> (r: Result<(), EngineError>)
        requires
            old(self).wf(),
            call_requires(draw, ()),
            new_count > 0 && labels@.len() > 0 ==> old(self)@.area.width > 0 && old(self)@.area.height > 0,
        ensures
            final(self).wf(),
            new_count > MAX_GROUP_SIZE ==> r == Err::<(), EngineError>(EngineError::CountTooLarge) && final(self)@
                == old(self)@,
            new_count <= MAX_GROUP_SIZE ==> r == Ok::<(), EngineError>(()) && repopulated(
                old(self)@,
                final(self)@,
                label_views(labels@),
                new_count as nat,
                rest,
                draw,
            ),
            new_count <= MAX_GROUP_SIZE ==> unambiguous(final(self)@.rules),
    {
        if new_count > MAX_GROUP_SIZE {
            return Err(EngineError::CountTooLarge);
        }
        let ghost names = label_views(labels@);
        self.clear();
        let mut i: usize = 0;
        assert(self@.labels() =~= first_occurrences(names, 0));
        while i < labels.len()
            invariant
                self.wf(),
                i <= labels.len(),
                names == label_views(labels@),
                self@.area == old(self)@.area,
                new_count > 0 && labels@.len() > 0 ==> self@.area.width > 0 && self@.area.height > 0,
                self@.labels() == first_occurrences(names, i as nat),
                forall|g: int|
                    0 <= g < self@.groups.len() ==> fresh_group(
                        #[trigger] self@.groups[g],
                        self@.groups[g].label,
                        new_count as nat,
                        rest,
                        self@.area,
                    ),
            decreases labels.len() - i,
        {
            let ghost before = self@;
            let ghost label = labels@[i as int]@;
            self.create_particles(new_count, labels[i].as_str(), rest);
            proof {
                let at = before.position(label);
                assert(names[i as int] == label);
                if before.holds(label) {
                    assert(before.labels()[at] == label);
                    assert(before.labels().contains(label));
                    assert(self@.labels() =~= before.labels());
                } else {
                    if before.labels().contains(label) {
                        let k = choose|k: int| 0 <= k < before.labels().len() && before.labels()[k] == label;
                        assert(before.groups[k].label == label);
                    }
                    assert(self@.labels() =~= before.labels().push(label));
                }
                assert forall|g: int| 0 <= g < self@.groups.len() implies fresh_group(
                    #[trigger] self@.groups[g],
                    self@.groups[g].label,
                    new_count as nat,
                    rest,
                    self@.area,
                ) by {
                    if g != at {
                        assert(self@.groups[g] == before.groups[g]);
                    }
                }
            }
            i += 1;
        }
        self.create_rules(draw);
        Ok(())
    }

    /// Whether every two groups that both hold particles have a coefficient.
    pub fn rules_cover(&self) -> (covered: bool)
        ensures
            covered == self@.rules_cover(),
    {
        let n = self.groups.len();
        let mut i: usize = 0;
        while i < n
            invariant
                n == self.groups.len(),
                i <= n,
                forall|a: int, b: int|
                    0 <= a < i && 0 <= b < n && (#[trigger] self@.groups[a]).particles.len() > 0 && (
                    #[trigger] self@.groups[b]).particles.len() > 0 ==> coefficient_in(
                        self@.rules,
                        self@.groups[a].label,
                        self@.groups[b].label,
                    ).is_some(),
            decreases n - i,
        {
            if self.groups[i].particles.len() > 0 {
                let mut j: usize = 0;
                while j < n
                    invariant
                        n == self.groups.len(),
                        i < n,
                        j <= n,
                        self@.groups[i as int].particles.len() > 0,
                        forall|b: int|
                            0 <= b < j && (#[trigger] self@.groups[b]).particles.len() > 0 ==> coefficient_in(
                                self@.rules,
                                self@.groups[i as int].label,
                                self@.groups[b].label,
                            ).is_some(),
                    decreases n - j,
                {
                    if self.groups[j].particles.len() > 0 {
                        let c = self.rules.coefficient(&self.groups[i].label, &self.groups[j].label);
                        if c.is_none() {
                            assert(self@.groups[j as int].particles.len() > 0);
                            return false;
                        }
                    }
                    j += 1;
                }
            }
            i += 1;
        }
        true
    }

    /// What the population adds to the force on `a`: one contribution for
    /// each particle in reach of `a` whose group has a coefficient with the
    /// group of `a` in the rule matrix, in the order of the groups and of
    /// their particles. A group without such a coefficient adds nothing,
    /// whatever it holds: where [`ParticleSystem::rules_cover`] does not
    /// hold, particles in reach may be passed over.
    pub fn contributions(&self, a: &Particle<S>) -> (found: Vec<Contribution<S>>)
        ensures
            contribution_models(found@) == self@.contributions(a@),
    {
        let mut found: Vec<Contribution<S>> = Vec::new();
        let n = self.groups.len();
        let mut j: usize = 0;
        assert(contribution_models(found@) =~= self@.contributions_upto(a@, 0));
        while j < n
            invariant
                n == self.groups.len(),
                j <= n,
                contribution_models(found@) == self@.contributions_upto(a@, j as nat),
            decreases n - j,
        {
            let group = &self.groups[j];
            let ghost before = contribution_models(found@);
            match self.rules.coefficient(&a.group, &group.label) {
                Some(g) => {
                    let m = group.particles.len();
                    let mut k: usize = 0;
                    assert(contribution_models(found@) =~= before + group_contributions(
                        a@,
                        group@.particles,
                        g,
                        0,
                    ));
                    while k < m
                        invariant
                            m == group.particles.len(),
                            m == group@.particles.len(),
                            k <= m,
                            contribution_models(found@) == before + group_contributions(
                                a@,
                                group@.particles,
                                g,
                                k as nat,
                            ),
                        decreases m - k,
                    {
                        let ghost earlier = contribution_models(found@);
                        assert(group@.particles[k as int] == group.particles[k as int]@);
                        match contribution(a, &group.particles[k], g) {
                            Some(c) => {
                                found.push(c);
                                assert(contribution_models(found@) =~= earlier.push(c@));
                                assert(contribution_models(found@) =~= before + group_contributions(
                                    a@,
                                    group@.particles,
                                    g,
                                    (k + 1) as nat,
                                ));
                            },
                            None => {},
                        }
                        k += 1;
                    }
                },
                None => {
                    assert(contribution_models(found@) =~= before + Seq::empty());
                },
            }
            assert(self@.groups[j as int] == group@);
            j += 1;
        }
        found
    }

    /// One tick: every particle is moved under the forces of the population
    /// as it stands before the tick.
    ///
    /// For each particle, `integrate` is given the particle's velocity on the
    /// two axes and what the population adds to the force on it, and returns
    /// the particle's new velocity together with the whole number of units it
    /// moves. The particle moves by those units, and on each axis on which it
    /// then lies outside the margins its new velocity is passed through
    /// `reverse`.
    ///
    /// Nothing is changed unless every particle can be moved.
    pub fn apply_rules<I: Fn(S, S, &Vec<Contribution<S>>) -> Kick<S>, R: Fn(S) -> S>(
        &mut self,
        integrate: I,
        reverse: R,
    ) -> (r: Result<(), EngineError>)
        requires
            old(self).wf(),
            forall|vx: S, vy: S, v: &Vec<Contribution<S>>| call_requires(integrate, (vx, vy, v)),
            forall|v: S| call_requires(reverse, (v,)),
        ensures
            final(self).wf(),
            !old(self)@.rules_cover() <==> r == Err::<(), EngineError>(EngineError::MissingRule),
            r.is_ok() ==> ticked(old(self)@, final(self)@, integrate, reverse),
            r.is_err() ==> final(self)@ == old(self)@,
            r.is_err() ==> r == Err::<(), EngineError>(EngineError::MissingRule) || r == Err::<(), EngineError>(
                EngineError::PositionOverflow,
            ),
            r == Err::<(), EngineError>(EngineError::PositionOverflow) ==> stranded(old(self)@, integrate),
            old(self)@.is_empty() ==> r.is_ok() && final(self)@ == old(self)@,
    {
        if !self.rules_cover() {
            return Err(EngineError::MissingRule);
        }
        let n = self.groups.len();
        let mut next: Vec<Group<S>> = Vec::new();
        let mut g: usize = 0;
        while g < n
            invariant
                self.wf(),
                self@.rules_cover(),
                *self == *old(self),
                n == self.groups.len(),
                g <= n,
                next@.len() == g,
                forall|vx: S, vy: S, v: &Vec<Contribution<S>>| call_requires(integrate, (vx, vy, v)),
                forall|v: S| call_requires(reverse, (v,)),
                forall|h: int|
                    0 <= h < g ==> group_ticked(self@, self@.groups[h], (#[trigger] next@[h])@, integrate, reverse),
            decreases n - g,
        {
            let group = &self.groups[g];
            let m = group.particles.len();
            let mut particles: Vec<Particle<S>> = Vec::new();
            let mut p: usize = 0;
            while p < m
                invariant
                    self.wf(),
                    self@.rules_cover(),
                    *self == *old(self),
                    g < self.groups.len(),
                    group == &self.groups[g as int],
                    m == group.particles.len(),
                    p <= m,
                    particles@.len() == p,
                    forall|vx: S, vy: S, v: &Vec<Contribution<S>>| call_requires(integrate, (vx, vy, v)),
                    forall|v: S| call_requires(reverse, (v,)),
                    forall|q: int|
                        0 <= q < p ==> moved(
                            group.particles@[q]@,
                            (#[trigger] particles@[q])@,
                            self@.contributions(group.particles@[q]@),
                            self@.area,
                            integrate,
                            reverse,
                        ),
                decreases m - p,
            {
                let a = &group.particles[p];
                let found = self.contributions(a);
                let kick = integrate(a.vx, a.vy, &found);
                match self.area.land(a.x, a.y, kick.dx, kick.dy) {
                    Ok(landing) => {
                        let vx = if landing.flip_x {
                            reverse(kick.vx)
                        } else {
                            kick.vx
                        };
                        let vy = if landing.flip_y {
                            reverse(kick.vy)
                        } else {
                            kick.vy
                        };
                        let b = Particle { x: landing.x, y: landing.y, vx, vy, group: a.group.clone() };
                        proof {
                            assert(call_ensures(integrate, (a@.vx, a@.vy, &found), kick));
                            assert(settled(a@, b@, kick, self@.area, reverse));
                            assert(moved(a@, b@, self@.contributions(a@), self@.area, integrate, reverse));
                        }
                        particles.push(b);
                    },
                    Err(e) => {
                        proof {
                            let system = self@;
                            assert(system.groups[g as int] == group@);
                            assert(system.groups[g as int].particles[p as int] == a@);
                            assert(call_ensures(
                                integrate,
                                (
                                    system.groups[g as int].particles[p as int].vx,
                                    system.groups[g as int].particles[p as int].vy,
                                    &found,
                                ),
                                kick,
                            ));
                            assert(stranded(system, integrate));
                        }
                        return Err(e);
                    },
                }
                p += 1;
            }
            let moved_group = Group { label: group.label.clone(), particles };
            proof {
                assert(self@.groups[g as int] == group@);
                assert(moved_group@.particles.len() == group@.particles.len());
                assert forall|q: int| 0 <= q < group@.particles.len() implies moved(
                    group@.particles[q],
                    #[trigger] moved_group@.particles[q],
                    self@.contributions(group@.particles[q]),
                    self@.area,
                    integrate,
                    reverse,
                ) by {
                    assert(group@.particles[q] == group.particles@[q]@);
                    assert(moved_group@.particles[q] == particles@[q]@);
                }
            }
            next.push(moved_group);
            g += 1;
        }
        let ghost pre = self@;
        self.groups = next;
        proof {
            assert(final(self)@.groups.len() == pre.groups.len());
            assert forall|h: int| 0 <= h < pre.groups.len() implies group_ticked(
                pre,
                pre.groups[h],
                #[trigger] self@.groups[h],
                integrate,
                reverse,
            ) by {
                assert(self@.groups[h] == next@[h]@);
            }
            lemma_tick_keeps_wf(pre, self@, integrate, reverse);
            if pre.is_empty() {
                lemma_tick_of_empty(pre, self@, integrate, reverse);
            }
        }
        Ok(())
    }
}

/// A tick keeps the labels distinct and every particle in its group.
pub proof fn lemma_tick_keeps_wf<S, I: Fn(S, S, &Vec<Contribution<S>>) -> Kick<S>, R: Fn(S) -> S>(
    pre: SystemModel<S>,
    post: SystemModel<S>,
    integrate: I,
    reverse: R,
)
    requires
        pre.wf(),
        ticked(pre, post, integrate, reverse),
    ensures
        post.wf(),
        post.labels() == pre.labels(),
{
    assert forall|g: int| 0 <= g < post.groups.len() implies post.groups[g].label == pre.groups[g].label && (
    #[trigger] post.groups[g]).wf() by {
        assert(group_ticked(pre, pre.groups[g], post.groups[g], integrate, reverse));
        assert(pre.groups[g].wf());
        assert forall|p: int| 0 <= p < post.groups[g].particles.len() implies (
        #[trigger] post.groups[g].particles[p]).group == post.groups[g].label by {
            assert(moved(
                pre.groups[g].particles[p],
                post.groups[g].particles[p],
                pre.contributions(pre.groups[g].particles[p]),
                pre.area,
                integrate,
                reverse,
            ));
        }
    }
    assert(labels_of(post.groups) =~= labels_of(pre.groups));
}

} // verus!
