//! A deterministic, multi-stage code-generation verification pipeline.
//!
//! The crate holds a dependency graph of work units with cycle-safe
//! insertion and deterministic topological ordering, a declarative
//! constraint policy, a purely in-process static validator, a bounded
//! validate/repair loop, and an orchestrator that drives one full run.

use vstd::prelude::*;

pub mod constraints;
pub mod dag;
pub mod orchestrator;
pub mod policy;
pub mod reflexion;
pub mod sandbox;
pub mod strutil;

pub use constraints::GrammarConstraint;
pub use constraints::SterilizationConfig;
pub use dag::DependencyGraph;
pub use orchestrator::Orchestrator;
pub use policy::banned_phrases;
pub use reflexion::ReflexionLoop;
pub use reflexion::RepairContext;
pub use sandbox::HermeticSandbox;
pub use sandbox::ValidationResult;

verus! {

/// The delimiter that fences every generation instruction.
pub const STERILIZATION_PROTOCOL: &'static str = "###_STERILIZATION_PROTOCOL_v1_###";

/// The default retry budget of the repair loop.
pub const MAX_RETRIES: u32 = 10;

/// Failures of the pipeline itself, as opposed to findings about an artifact.
#[derive(Debug, Clone, Copy, PartialEq, Eq, Structural)]
pub enum PipelineError {
    /// Inserting a unit, or ordering the graph, would need a dependency
    /// edge that leads back to a unit itself.
    CycleDetected,
    /// A computed execution order named a unit absent from the graph.
    UnitNotFound,
    /// A unit was inserted under an identifier the graph already holds.
    DuplicateUnit,
    /// The repair loop ran out of its retry budget; carries that budget.
    RetriesExceeded(u32),
}

} // verus!
