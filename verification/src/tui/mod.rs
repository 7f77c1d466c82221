//! What the terminal interface shows.
//!
//! Each `draw` function turns the state of the interface into a plan: which text stands
//! where, and in which tone. Painting the plan is left to the terminal library.
pub mod app;
pub mod chrome;
pub mod frame;
pub mod laws;
pub mod layout;
pub mod line;
pub mod providers;
pub mod sandbox_policy;
