//! Verified core of a bridge between chat platforms and agent backends.
pub mod text;
pub mod number;
pub mod strmap;
pub mod summary;
pub mod session;
pub mod clock;
pub mod error;
pub mod registry;
pub mod routing;
pub mod crypto;
pub mod auth;
pub mod inbound;
pub mod config;
pub mod persistence;
pub mod channel;
pub mod cliargs;
pub mod paths;
pub mod store;
pub mod lease;
pub mod listener;
pub mod backend;
pub mod protocol;
pub mod webhook;
pub mod agents;
