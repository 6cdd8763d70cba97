//! A personal task list: a flat store of tasks, a single-slot undo buffer for
//! the last finished task, and fuzzy lookup of a task by its description.
pub mod text;
pub mod task;
pub mod matching;
pub mod order;
pub mod store;
