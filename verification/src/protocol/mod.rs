//! Wire formats spoken with a tracker.

pub mod bencode;
pub mod nesting;
pub mod sorting;
pub mod tracker;
