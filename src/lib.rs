//! An authoritative state-synchronisation server: a compact binary packet
//! protocol, cancellable event dispatch to listeners, player sessions and the
//! registry that owns them.
//!
//! Coordinates travel as IEEE-754 single-precision values. This crate keeps
//! them as their raw bit patterns, so that encoding and decoding are exact and
//! proved; arithmetic on the numeric values is done by the embedding program.
pub mod client;
pub mod listener;
pub mod networking;
pub mod server;
