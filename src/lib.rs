//! A tunnel that carries TCP connections over one reliable-datagram
//! transport connection, many of them multiplexed as streams of one session.
//!
//! The library holds the decisions of the tunnel: how the relay between a
//! TCP socket and a stream splits, forwards and closes, how the client and
//! the server react to each setup, accept and open outcome, and how the
//! plugin's environment becomes addresses. The program around it performs
//! the I/O and hands each outcome back.

pub mod chunk;
pub mod client;
pub mod config;
pub mod plugin;
pub mod relay;
pub mod server;
