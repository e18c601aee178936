//! Backend of a remote-shell client: a secure vault for credentials, a store of
//! named connection profiles, and the lifecycle of interactive sessions.

pub mod text;
pub mod crypto;
pub mod table;
pub mod session;
pub mod ssh;
pub mod config;
pub mod commands;
pub mod keygen;
