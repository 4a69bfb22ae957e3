//! The operations that a shell around the engine offers to its user. Each
//! takes the engine, which the shell holds for the whole of the operation.

use vstd::prelude::*;
use crate::error::EngineError;
use crate::interaction::Contribution;
use crate::model::{first_occurrences, repopulated, stranded, ticked};
use crate::motion::Kick;
use crate::particle::{distinct, group_models, Group};
use crate::rules::{label_views, unambiguous, RowModel, RuleMatrix};
use crate::system::{ParticleSystem, MAX_GROUP_SIZE};

verus! {

/// The number of particles in each group of the population that
/// [`init_particles`] generates.
pub const DEFAULT_GROUP_SIZE: usize = 75;

/// The labels of the groups of the default population, in order.
pub open spec fn default_label_views() -> Seq<Seq<char>> {
    seq!["red"@, "magenta"@, "green"@, "yellow"@]
}

/// The four default labels differ from one another, so each of them gets a
/// group of its own, in their order.
pub proof fn lemma_default_labels()
    ensures
        default_label_views().len() == 4,
        distinct(default_label_views()),
        first_occurrences(default_label_views(), 4) == default_label_views(),
{
    let labels = default_label_views();
    reveal_strlit("red");
    reveal_strlit("magenta");
    reveal_strlit("green");
    reveal_strlit("yellow");
    assert(labels[0].len() == 3 && labels[1].len() == 7 && labels[2].len() == 5 && labels[3].len() == 6);
    let none = first_occurrences(labels, 0);
    let one = first_occurrences(labels, 1);
    let two = first_occurrences(labels, 2);
    let three = first_occurrences(labels, 3);
    let four = first_occurrences(labels, 4);
    assert(none =~= Seq::empty());
    assert(one =~= seq![labels[0]]);
    assert(two =~= seq![labels[0], labels[1]]);
    assert(three =~= seq![labels[0], labels[1], labels[2]]);
    assert(four =~= labels);
}

/// The labels of the groups of the default population, in order.
pub fn default_labels() -> (labels: Vec<String>)
    ensures
        label_views(labels@) == default_label_views(),
{
    let mut labels: Vec<String> = Vec::new();
    labels.push("red".to_owned());
    labels.push("magenta".to_owned());
    labels.push("green".to_owned());
    labels.push("yellow".to_owned());
    assert(label_views(labels@) =~= default_label_views());
    labels
}

/// A rule matrix as it travels between the engine and its user.
pub struct InteractionRules<S> {
    pub rules: RuleMatrix<S>,
}

impl<S> View for InteractionRules<S> {
    type V = Seq<RowModel<S>>;

    open spec fn view(&self) -> Seq<RowModel<S>> {
        self.rules@
    }
}

/// Generates the default population and its rules if the engine has no
/// group, and leaves the engine as it is if it has one. Returns the groups.
pub fn init_particles<S: Copy, D: Fn() -> S>(system: &mut ParticleSystem<S>, rest: S, draw: D) -> (snapshot: Vec<
    Group<S>,
>)
    requires
        old(system).wf(),
        call_requires(draw, ()),
        old(system)@.groups.len() == 0 ==> old(system)@.area.width > 0 && old(system)@.area.height > 0,
    ensures
        final(system).wf(),
        old(system)@.groups.len() > 0 ==> final(system)@ == old(system)@,
        old(system)@.groups.len() == 0 ==> repopulated(
            old(system)@,
            final(system)@,
            default_label_views(),
            DEFAULT_GROUP_SIZE as nat,
            rest,
            draw,
        ),
        old(system)@.groups.len() == 0 ==> final(system)@.labels() == default_label_views() && unambiguous(
            final(system)@.rules,
        ),
        group_models(snapshot@) == final(system)@.groups,
{
    if system.group_count() == 0 {
        let labels = default_labels();
        let r = system.resize_population(DEFAULT_GROUP_SIZE, &labels, rest, draw);
        proof {
            lemma_default_labels();
        }
    }
    system.get_particles()
}

/// One tick of the engine (see [`ParticleSystem::apply_rules`]). Returns the
/// groups as they are after it.
pub fn update_particles<S: Copy, I: Fn(S, S, &Vec<Contribution<S>>) -> Kick<S>, R: Fn(S) -> S>(
    system: &mut ParticleSystem<S>,
    integrate: I,
    reverse: R,
) -> (r: Result<Vec<Group<S>>, EngineError>)
    requires
        old(system).wf(),
        forall|vx: S, vy: S, v: &Vec<Contribution<S>>| call_requires(integrate, (vx, vy, v)),
        forall|v: S| call_requires(reverse, (v,)),
    ensures
        final(system).wf(),
        !old(system)@.rules_cover() <==> r == Err::<Vec<Group<S>>, EngineError>(EngineError::MissingRule),
        r.is_ok() ==> ticked(old(system)@, final(system)@, integrate, reverse) && group_models(r.unwrap()@)
            == final(system)@.groups,
        r.is_err() ==> final(system)@ == old(system)@,
        r.is_err() ==> r == Err::<Vec<Group<S>>, EngineError>(EngineError::MissingRule) || r == Err::<
            Vec<Group<S>>,
            EngineError,
        >(EngineError::PositionOverflow),
        r == Err::<Vec<Group<S>>, EngineError>(EngineError::PositionOverflow) ==> stranded(old(system)@, integrate),
        old(system)@.is_empty() ==> r.is_ok() && final(system)@ == old(system)@,
{
    match system.apply_rules(integrate, reverse) {
        Ok(()) => Ok(system.get_particles()),
        Err(e) => Err(e),
    }
}

/// A copy of the rule matrix.
pub fn get_interaction_rules<S: Copy>(system: &ParticleSystem<S>) -> (rules: InteractionRules<S>)
    ensures
        rules@ == system@.rules,
{
    InteractionRules { rules: system.get_rules() }
}

/// Puts `new_rules` in the place of the rule matrix, as it is. Never fails.
pub fn update_interaction_rules<S: Copy>(system: &mut ParticleSystem<S>, new_rules: InteractionRules<S>) -> (r:
    Result<(), EngineError>)
    requires
        old(system).wf(),
    ensures
        final(system).wf(),
        r == Ok::<(), EngineError>(()),
        final(system)@ == old(system)@.with_rules(new_rules@),
{
    system.replace_rules(new_rules.rules);
    Ok(())
}

/// Puts `new_rules` in the place of the rule matrix and leaves the particles
/// alone. Never fails.
pub fn update_rules_only<S: Copy>(system: &mut ParticleSystem<S>, new_rules: InteractionRules<S>) -> (r: Result<
    (),
    EngineError,
>)
    requires
        old(system).wf(),
    ensures
        final(system).wf(),
        r == Ok::<(), EngineError>(()),
        final(system)@ == old(system)@.with_rules(new_rules@),
{
    system.replace_rules(new_rules.rules);
    Ok(())
}

/// Generates the default groups anew with `new_num` particles each, and then
/// the rules. Returns the groups. A number above [`MAX_GROUP_SIZE`] is
/// refused, and the engine stays as it is.
pub fn update_num_atoms<S: Copy, D: Fn() -> S>(
    system: &mut ParticleSystem<S>,
    new_num: usize,
    rest: S,
    draw: D,
) -> (r: Result<Vec<Group<S>>, EngineError>)
    requires
        old(system).wf(),
        call_requires(draw, ()),
        new_num > 0 ==> old(system)@.area.width > 0 && old(system)@.area.height > 0,
    ensures
        final(system).wf(),
        new_num > MAX_GROUP_SIZE ==> final(system)@ == old(system)@ && r == Err::<Vec<Group<S>>, EngineError>(
            EngineError::CountTooLarge,
        ),
        new_num <= MAX_GROUP_SIZE ==> r.is_ok() && group_models(r.unwrap()@) == final(system)@.groups && repopulated(
            old(system)@,
            final(system)@,
            default_label_views(),
            new_num as nat,
            rest,
            draw,
        ),
        new_num <= MAX_GROUP_SIZE ==> final(system)@.labels() == default_label_views() && unambiguous(
            final(system)@.rules,
        ),
{
    let labels = default_labels();
    proof {
        lemma_default_labels();
    }
    match system.resize_population(new_num, &labels, rest, draw) {
        Ok(()) => Ok(system.get_particles()),
        Err(e) => Err(e),
    }
}

} // verus!
