//! Engine of a BitTorrent ratio faker: torrent metadata, client fingerprints,
//! tracker requests and responses, the per-session state machine and the
//! registry of sessions.

pub mod auth;
pub mod config;
pub mod events;
pub mod faker;
pub mod output;
pub mod protocol;
pub mod random;
pub mod runner;
pub mod session;
pub mod session_laws;
pub mod state;
pub mod text;
pub mod torrent;
pub mod units;
pub mod validation;
