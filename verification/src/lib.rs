//! Request/response messaging over rtipc channels that are set up through D-Bus.
//!
//! A client describes its channels ([`config`]) to a server over the bus
//! ([`connect`]). The server answers the commands that come in ([`server`]), and
//! the client sends them and listens for events ([`client`]). What is known of
//! the channels themselves stands in [`channel`].

#![allow(unused_imports)]

pub mod channel;
pub mod client;
pub mod config;
pub mod connect;
pub mod error;
pub mod laws;
pub mod message;
pub mod server;
pub mod text;
pub mod wait;
pub mod wrap;

pub use config::rtipc_into_zbus_config;
pub use config::zbus_into_rtipc_vector_config;
pub use config::ChannelConfigBus;
pub use message::CommandId;
pub use message::MsgCommand;
pub use message::MsgEvent;
pub use message::MsgResponse;
