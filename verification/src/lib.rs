//! Vanity search for Monero addresses: the verified core.
//!
//! The library holds the fixed-length base58 encoder, the incremental point
//! walker, the batch scan against a compiled pattern, the split-key
//! arithmetic and the bookkeeping of a run. Threads, channels, the command
//! line and the window live with the caller.
pub mod encode;
pub mod threads;
pub mod pattern;
pub mod curve;
pub mod walker;
pub mod keys;
pub mod search;
pub mod state;
pub mod address;
pub mod speed;
pub mod cli;
