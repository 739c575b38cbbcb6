//! Logic of a TLS-intercepting forward proxy for game traffic, together with
//! the launcher decisions that surround it: which hosts are redirected, how a
//! request is rewritten against the configured backend, how the local
//! certificate authority is loaded or regenerated and how leaf certificates
//! are issued, plus configuration lookup, runner discovery and game-specific
//! patch decisions. All I/O stays with the caller; every function here is
//! specified and verified.

pub mod strutil;
pub mod policy;
pub mod registry;
pub mod rewrite;
pub mod ca;
pub mod certinstall;
pub mod config;
pub mod game;
pub mod genshin;
pub mod starrail;
pub mod umu;
pub mod server;
pub mod wine;
