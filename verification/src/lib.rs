//! Core state of a local OAuth2 token daemon: the configured accounts, the token state of
//! each, and the guard through which both are read and changed.

pub mod config;
pub mod server;
pub mod text;
pub mod user_sender;
