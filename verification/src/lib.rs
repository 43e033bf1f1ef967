//! Axon: the decision logic of a terminal coding agent.
//!
//! The library holds what the agent decides and computes; the terminal, the
//! network and the file system stay with the program around it.

pub mod app;
pub mod config;
pub mod config_file;
pub mod diff;
pub mod event;
pub mod highlight;
pub mod inference;
pub mod layout;
pub mod stream;
pub mod text;
pub mod tools;
