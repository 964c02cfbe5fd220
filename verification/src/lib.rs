//! Core of an 8-bit virtual machine interpreter: a 4096-byte memory model,
//! a two-byte instruction decoder, a fetch-decode-execute engine, a pair of
//! 60 Hz countdown timers, and a deterministic pseudo-random byte source.
//!
//! Display presentation, audio playback, keyboard translation and ROM file
//! reading are I/O concerns of the surrounding program; the engine works on
//! a plain monochrome pixel grid and a 16-key pressed/released table.

pub mod chip_timers;
pub mod display;
pub mod engine;
pub mod error;
pub mod instruction;
pub mod laws;
pub mod memory;
pub mod rng;
pub mod semantics;
