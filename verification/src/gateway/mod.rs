//! The request handlers of the gateway.
//!
//! A handler is a [`flow::Flow`]: a value that says which outside work comes next, is
//! handed what came of it, and goes on from there until it holds its answer. What is
//! asked for, in which order, and what is answered is all decided here; the work
//! itself is done by whoever drives the flow.
pub mod config;
pub mod environment;
pub mod environment_laws;
pub mod exec;
pub mod exec_laws;
pub mod flow;
pub mod log_laws;
pub mod logs;
pub mod model;
pub mod policy;
pub mod policy_laws;
pub mod policy_rules;
pub mod provider;
pub mod provider_laws;
pub mod sandbox;
pub mod sandbox_laws;
pub mod service;
pub mod session;
pub mod session_laws;
pub mod ssh_proxy;
pub mod watch;
pub mod watch_laws;
pub mod world;
