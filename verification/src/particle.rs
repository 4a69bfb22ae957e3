//! Particles, groups of particles, and their mathematical models.

use vstd::prelude::*;

verus! {

/// What a particle is: a position, a velocity and the label of its group.
pub struct ParticleModel<S> {
    pub x: int,
    pub y: int,
    pub vx: S,
    pub vy: S,
    pub group: Seq<char>,
}

/// What a group is: a label and the particles that carry it, in the order in
/// which they were generated.
pub struct GroupModel<S> {
    pub label: Seq<char>,
    pub particles: Seq<ParticleModel<S>>,
}

/// A particle of the simulation.
pub struct Particle<S> {
    pub x: i32,
    pub y: i32,
    pub vx: S,
    pub vy: S,
    pub group: String,
}

impl<S> View for Particle<S> {
    type V = ParticleModel<S>;

    open spec fn view(&self) -> ParticleModel<S> {
        ParticleModel { x: self.x as int, y: self.y as int, vx: self.vx, vy: self.vy, group: self.group@ }
    }
}

impl<S: Copy> Particle<S> {
    /// A particle at `(x, y)` that moves with velocity `rest` on both axes.
    pub fn new(x: i32, y: i32, rest: S, group: String) -> (p: Self)
        ensures
            p.x == x,
            p.y == y,
            p.vx == rest,
            p.vy == rest,
            p.group == group,
    {
        Particle { x, y, vx: rest, vy: rest, group }
    }
}

impl<S: Copy> Clone for Particle<S> {
    fn clone(&self) -> (p: Self)
        ensures
            p == *self,
    {
        Particle { x: self.x, y: self.y, vx: self.vx, vy: self.vy, group: self.group.clone() }
    }
}

/// The models of a sequence of particles, in order.
pub open spec fn particle_models<S>(particles: Seq<Particle<S>>) -> Seq<ParticleModel<S>> {
    Seq::new(particles.len(), |i: int| particles[i]@)
}

/// A labelled group of particles.
pub struct Group<S> {
    pub label: String,
    pub particles: Vec<Particle<S>>,
}

impl<S> View for Group<S> {
    type V = GroupModel<S>;

    open spec fn view(&self) -> GroupModel<S> {
        GroupModel { label: self.label@, particles: particle_models(self.particles@) }
    }
}

impl<S> GroupModel<S> {
    /// Every particle of the group carries the group's label.
    pub open spec fn wf(self) -> bool {
        forall|i: int| 0 <= i < self.particles.len() ==> (#[trigger] self.particles[i]).group == self.label
    }
}

/// The models of a sequence of groups, in order.
pub open spec fn group_models<S>(groups: Seq<Group<S>>) -> Seq<GroupModel<S>> {
    Seq::new(groups.len(), |i: int| groups[i]@)
}

/// The labels of a sequence of groups, in order.
pub open spec fn labels_of<S>(groups: Seq<GroupModel<S>>) -> Seq<Seq<char>> {
    Seq::new(groups.len(), |i: int| groups[i].label)
}

/// No label occurs twice.
pub open spec fn distinct(labels: Seq<Seq<char>>) -> bool {
    forall|i: int, j: int| 0 <= i < j < labels.len() ==> labels[i] != labels[j]
}

/// A copy of `particles`, particle by particle.
pub fn copy_particles<S: Copy>(particles: &Vec<Particle<S>>) -> (copy: Vec<Particle<S>>)
    ensures
        copy@ == particles@,
{
    let mut copy: Vec<Particle<S>> = Vec::new();
    let mut i: usize = 0;
    while i < particles.len()
        invariant
            i <= particles.len(),
            copy@ == particles@.subrange(0, i as int),
        decreases particles.len() - i,
    {
        copy.push(particles[i].clone());
        assert(copy@ == particles@.subrange(0, i + 1));
        i += 1;
    }
    assert(particles@.subrange(0, particles@.len() as int) == particles@);
    copy
}

impl<S: Copy> Clone for Group<S> {
    fn clone(&self) -> (g: Self)
        ensures
            g.label == self.label,
            g.particles@ == self.particles@,
            g@ == self@,
    {
        Group { label: self.label.clone(), particles: copy_particles(&self.particles) }
    }
}

} // verus!
