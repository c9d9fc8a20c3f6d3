//! Entities, component columns, the world that owns them, and the scheduler.

pub mod column;
pub mod laws;
pub mod skeleton;
pub mod world;

pub use column::{BorrowConflict, Column, ColumnState, Lease};
pub use skeleton::{Phase, Skeleton, SkeletonView};
pub use world::{World, WorldView};
