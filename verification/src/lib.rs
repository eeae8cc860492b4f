//! The decision logic of a language server for DML, the device modeling
//! language.
//!
//! The library holds what the server knows and decides: which diagnostics a
//! client gets to see, which device contexts are active, when a wait for an
//! analysis is over, what a configuration change sets off, how a message is
//! dispatched, and which lint findings an annotation in the source silences.
//! It performs no input or output. Whatever has to happen outside is handed to
//! the caller as a list of [`effects::Effect`]s, in order, and what comes back
//! from outside enters as an argument.
#![allow(unused_imports)]

pub mod collections;
pub mod text;
pub mod span;
pub mod lint;
pub mod path;
pub mod errors;
pub mod server;
pub mod effects;
pub mod config;
pub mod actions;
