//! What the library promises, said of the fields of messages, configurations and
//! channels alone.

pub mod client;
pub mod config;
pub mod message;
pub mod server;
