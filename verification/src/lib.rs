//! Core engine of a keyboard-remapping daemon.
//!
//! Raw key transitions are pushed into a debounce buffer; configured
//! multi-key combos are recognized against the buffer's contents and
//! expanded into timed macros, whose events a bounded scheduler admits
//! one by one. All decisions are made here and verified; reading the
//! input device, arming real timers and writing to the output device
//! are left to the unverified shell around this crate.

pub mod config;
pub mod key_buffer;
pub mod key_scheduler;
pub mod keys;
