//! The folded store: entity state replayed from wire history, and the
//! indexed view of tasks, areas and tags built from it.
pub mod entities;
pub mod state;
pub mod model;
pub mod things_store;
pub mod queries;
