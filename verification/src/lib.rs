//! An entity-component store with typed columns, a scheduler that runs
//! start-up and per-frame systems in registration order, and the decisions
//! a render loop takes on each event.

pub mod ecs;
pub mod engine;
