//! Which pairs of particles act on each other.

use vstd::prelude::*;
use crate::particle::{Particle, ParticleModel};

verus! {

/// Two particles act on each other only when they are closer than this.
pub const INTERACTION_RADIUS: i32 = 80;

/// The square of the distance that belongs to an offset.
pub open spec fn distance_squared(dx: int, dy: int) -> int {
    dx * dx + dy * dy
}

/// An offset is in reach when its length is positive and below
/// [`INTERACTION_RADIUS`]. On integers that is a condition on the square.
pub open spec fn in_reach(dx: int, dy: int) -> bool {
    0 < distance_squared(dx, dy) < INTERACTION_RADIUS * INTERACTION_RADIUS
}

/// What one neighbour adds to the force on a particle: the coefficient of the
/// two groups, the offset from the neighbour to the particle, and the square
/// of its length.
pub struct Contribution<S> {
    pub coefficient: S,
    pub dx: i32,
    pub dy: i32,
    pub distance_squared: i32,
}

/// What one neighbour adds, as a mathematical value.
pub struct ContributionModel<S> {
    pub coefficient: S,
    pub dx: int,
    pub dy: int,
    pub distance_squared: int,
}

impl<S> View for Contribution<S> {
    type V = ContributionModel<S>;

    open spec fn view(&self) -> ContributionModel<S> {
        ContributionModel {
            coefficient: self.coefficient,
            dx: self.dx as int,
            dy: self.dy as int,
            distance_squared: self.distance_squared as int,
        }
    }
}

/// The models of a sequence of contributions, in order.
pub open spec fn contribution_models<S>(contributions: Seq<Contribution<S>>) -> Seq<ContributionModel<S>> {
    Seq::new(contributions.len(), |i: int| contributions[i]@)
}

/// What neighbour `b` adds to the force on `a` under `coefficient`: nothing
/// unless the offset between them is in reach.
pub open spec fn contribution_of<S>(a: ParticleModel<S>, b: ParticleModel<S>, coefficient: S) -> Option<
    ContributionModel<S>,
> {
    if in_reach(a.x - b.x, a.y - b.y) {
        Some(
            ContributionModel {
                coefficient,
                dx: a.x - b.x,
                dy: a.y - b.y,
                distance_squared: distance_squared(a.x - b.x, a.y - b.y),
            },
        )
    } else {
        None
    }
}

/// What the first `n` of `others` add to the force on `a` under
/// `coefficient`, in their order.
pub open spec fn group_contributions<S>(
    a: ParticleModel<S>,
    others: Seq<ParticleModel<S>>,
    coefficient: S,
    n: nat,
) -> Seq<ContributionModel<S>>
    decreases n,
{
    if n == 0 {
        Seq::empty()
    } else {
        let before = group_contributions(a, others, coefficient, (n - 1) as nat);
        match contribution_of(a, others[n - 1], coefficient) {
            Some(c) => before.push(c),
            None => before,
        }
    }
}

/// An offset with a component of at least the radius is out of reach.
pub proof fn lemma_far_component(dx: int, dy: int)
    requires
        dx <= -INTERACTION_RADIUS || dx >= INTERACTION_RADIUS || dy <= -INTERACTION_RADIUS || dy
            >= INTERACTION_RADIUS,
    ensures
        !in_reach(dx, dy),
{
    assert(dx * dx >= 0 && dy * dy >= 0) by (nonlinear_arith);
    assert(dx <= -80 || dx >= 80 ==> dx * dx >= 6400) by (nonlinear_arith);
    assert(dy <= -80 || dy >= 80 ==> dy * dy >= 6400) by (nonlinear_arith);
}

/// What neighbour `b` adds to the force on `a` under `coefficient`.
pub fn contribution<S: Copy>(a: &Particle<S>, b: &Particle<S>, coefficient: S) -> (c: Option<Contribution<S>>)
    ensures
        c.is_some() == contribution_of(a@, b@, coefficient).is_some(),
        c.is_some() ==> c.unwrap()@ == contribution_of(a@, b@, coefficient).unwrap(),
{
    let radius: i64 = INTERACTION_RADIUS as i64;
    let dx: i64 = a.x as i64 - b.x as i64;
    let dy: i64 = a.y as i64 - b.y as i64;
    if dx <= -radius || dx >= radius || dy <= -radius || dy >= radius {
        proof {
            lemma_far_component(dx as int, dy as int);
        }
        return None;
    }
    assert(0 <= dx * dx <= 6400 && 0 <= dy * dy <= 6400) by (nonlinear_arith)
        requires
            -80 < dx < 80,
            -80 < dy < 80,
    ;
    let d2: i64 = dx * dx + dy * dy;
    if d2 == 0 || d2 >= radius * radius {
        None
    } else {
        Some(Contribution { coefficient, dx: dx as i32, dy: dy as i32, distance_squared: d2 as i32 })
    }
}

} // verus!
