//! The server: its messages, and what it makes of them.
pub mod message;
pub mod methods;
pub mod caps;
pub mod notify;
pub mod lifecycle;
pub mod service;
pub mod laws;
pub mod message_laws;
