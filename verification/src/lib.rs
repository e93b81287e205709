//! Central directory and routing hub for a federated real-time messaging
//! fabric.  The hub owns the global identity directory, drives the
//! authenticated control-channel handshake for relay nodes (omikrons),
//! tracks which relays currently front which home servers (iotas) and
//! users, and resolves discovery queries to a reachable relay.

pub mod crypto;
pub mod entropy;
pub mod presence;
pub mod msg;
pub mod records;
pub mod register;
pub mod registry;
pub mod resolver;
pub mod session;
pub mod shortlink;
pub mod status;
pub mod strutil;
