//! Things Cloud sync protocol wire-format types.
//!
//! Observed item shape in history pages:
//! `{ uuid: { "t": operation, "e": entity, "p": properties } }`.
//! Replaying items in order by UUID yields current state.
pub mod codes;
pub mod entity;
pub mod notes;
pub mod props;
pub mod wire_object;
pub mod value;
