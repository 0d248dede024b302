//! Keystroke statistics: typing segments, key, bigram and trigram
//! frequencies, inter-key and hold-duration timing, and the rules of the
//! capture daemon and of the dashboard, each with a contract that Verus
//! proves.

pub mod analysis;
pub mod daemon;
pub mod models;
pub mod storage;
pub mod tui;
