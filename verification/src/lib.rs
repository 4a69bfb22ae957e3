//! Particle-life simulation engine: groups of labelled particles that move
//! under pairwise attraction and repulsion.
//!
//! Positions are integers and every decision of the engine (which pairs
//! interact, where a particle lands, when it bounces) is made on integers.
//! Velocities and interaction coefficients are values of a scalar type `S`
//! chosen by the caller; the engine stores and hands them around but never
//! computes with them. Arithmetic on scalars is supplied by the caller as
//! function values.

pub mod commands;
pub mod error;
pub mod interaction;
pub mod laws;
pub mod model;
pub mod motion;
pub mod particle;
pub mod random;
pub mod rules;
pub mod system;

pub use commands::{
    default_labels, get_interaction_rules, init_particles, update_interaction_rules, update_num_atoms,
    update_particles, update_rules_only, InteractionRules, DEFAULT_GROUP_SIZE,
};
pub use error::EngineError;
pub use interaction::{Contribution, ContributionModel, INTERACTION_RADIUS};
pub use model::SystemModel;
pub use motion::{Area, Kick, Landing, Margins, DEFAULT_MARGIN_HIGH, DEFAULT_MARGIN_LOW};
pub use particle::{Group, GroupModel, Particle, ParticleModel};
pub use rules::{EntryModel, RowModel, RuleEntry, RuleMatrix, RuleRow};
pub use system::{ParticleSystem, MAX_GROUP_SIZE};
