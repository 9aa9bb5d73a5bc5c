//! Hook handlers of the lighter plugin variant, which nudges for reflection
//! on task completion.
pub mod task_completed;
