//! Validation engine for the registered relay and file-transfer servers of a
//! federated network.
//!
//! The crate holds the decisions of one validation pass: how a server address
//! is classified, how a liveness probe is framed and its reply matched, how a
//! geolocation answer becomes a country, when an info page counts as
//! available, and in which order these steps run for a server. Everything that
//! touches a socket, a file or a clock is left to the caller, which performs
//! the action the engine asks for and reports what happened.

pub mod database;
pub mod engine;
pub mod geoip;
pub mod laws;
pub mod pass;
pub mod smp;
pub mod text;
pub mod uri_parser;
