//! Core of a client for a publish/subscribe broker that speaks a textual,
//! line-oriented wire protocol: the frame codec, the subscription registry,
//! the router of incoming frames, the outbound queue and the request flow.

pub mod command;
pub mod error;
pub mod payload;
pub mod text;
pub mod codec;
pub mod encoder;
pub mod decoder;
pub mod builder;
pub mod random;
pub mod registry;
pub mod router;
pub mod sender;
pub mod request;
pub mod server_error;
pub mod transport;
pub mod client;
