pub mod auth;
pub mod commands;
pub mod common;
pub mod dirs;
pub mod ids;
pub mod text;
pub mod time;
pub mod sorting;
pub mod store;
pub mod wire;
pub mod sdk;
pub mod sync;
pub mod ui;
