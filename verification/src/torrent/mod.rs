//! Torrent metadata and the fingerprints of the clients that can be imitated.

pub mod client;
pub mod info;
