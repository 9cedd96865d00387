//! Timeline composition engine for short-form vertical video editing.
//!
//! The library turns a declarative edit specification (a list of source time
//! ranges with per-cut styling) into a deterministic render plan: one render
//! job per retained cut, a source-time-to-output-time mapping used to place
//! sound-effect cues, and an audio-layering plan with gain, delay and a tail
//! fade. Invoking the external media engine, watching for specification
//! files and parsing them from JSON are left to the surrounding binary; the
//! library works on plain values and is verified end to end.
//!
//! All times are held in integer milliseconds: the engine's command lines
//! are written with millisecond precision, so nothing finer is ever needed.

use vstd::prelude::*;

pub mod compose;
pub mod errors;
pub mod filters;
pub mod laws;
pub mod model;
pub mod planner;
pub mod sequencer;
pub mod text;
pub mod timecode;

verus! {

/// Fixed overlap, in milliseconds, consumed from the output timeline by one
/// transition between two adjacent cuts.
pub const TRANSITION_OVERLAP_MS: u64 = 500;

} // verus!
