//! A TCP tunnel that exposes local ports to a remote server: the protocol and the decisions of
//! the server.
//!
//! Nothing here reads, writes or waits. [`shared::Delimited`] turns bytes into frames and back,
//! [`server::Server`] decides what is done on each control connection, and [`command::run`] works
//! out what the command line asks for. What has to be done outside is told to the caller, who
//! reports what came of it.
//!
//! - [`shared`]: protocol messages and the framed stream
//! - [`framing`]: the model of that stream, and what holds of it
//! - [`session`]: the life of one control connection
//! - [`server`]: the server
//! - [`laws`]: what holds of every session
//! - [`conversation`]: what a client hears in the course of a session
//! - [`service`]: what holds of the listener and all its sessions together
//! - [`command`]: the command line
//! - [`delimiter`], [`registry`], [`random`]: what is believed of other crates
pub mod command;
pub mod conversation;
pub mod delimiter;
pub mod framing;
pub mod laws;
pub mod random;
pub mod registry;
pub mod server;
pub mod service;
pub mod session;
pub mod shared;
