//! Command logic: what each command decides and which wire changes it plans.
pub mod lists;
pub mod placement;
pub mod new_task;
pub mod schedule;
pub mod edits;
pub mod delete;
pub mod find;
pub mod creates;
pub mod views;
pub mod listing;
pub mod tag_tree;
pub mod args;
