//! The client side of an SSH connection, once the transport is encrypted.
pub mod address;
pub mod auth;
pub mod buffer;
pub mod client;
pub mod encoding;
pub mod error;
pub mod msg;
pub mod names;
pub mod packet;
pub mod session;
