//! Layout arithmetic of the terminal views.
pub mod line;
pub mod today;
pub mod widgets;
