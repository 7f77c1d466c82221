//! The verified core of the OpenShell gateway, its sandbox supervisor and its terminal
//! interface.
//!
//! What these decide is decided here, as functions from plain values to plain values with
//! contracts over mathematical models. Reading, sending and waiting is left to the programs
//! around the library.
pub mod bytes;
pub mod clock;
pub mod crypto;
pub mod discovery;
pub mod driver;
pub mod exec_command;
pub mod gateway;
pub mod ident;
pub mod ownership;
pub mod seccomp;
pub mod status;
pub mod string_map;
pub mod text;
pub mod tui;
