//! Downloads: tasks and their progress, and the decisions of the workers.

pub mod progress;
pub mod manager;
