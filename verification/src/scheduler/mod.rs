//! Job selection, and the decisions of the executors that carry jobs out.

pub mod effects;
pub mod launch;
pub mod fix;
pub mod prepare;
pub mod engage;
pub mod recheck;
pub mod harvest;
pub mod hunt;
pub mod sync;
pub mod select;
pub mod resume;
pub mod cycle;
pub mod clone;
