//! Core of a sample-based instrument: a zone map that matches notes to
//! recordings, mono/poly note-dispatch policies over a fixed pool of
//! playback voices, and a fixed-point resampling playhead that renders
//! each voice at the pitch ratio requested by the triggering note.
//!
//! All quantities are integers: frequencies are millihertz, velocities
//! and amplitudes are thousandths of full scale, and playback positions
//! advance in 1/65536ths of a source frame.
use vstd::prelude::*;

pub mod audio;
pub mod dynamic;
pub mod mode;
pub mod sampler;
pub mod source;
pub mod zones;

verus! {

/// A frequency, in millihertz (so 440 Hz is written 440_000).
pub type Hz = u64;

/// The force with which a note was pressed, in thousandths of full
/// scale: 0 is silent, `MAX_VELOCITY` is full force.
pub type Velocity = u32;

/// Upper bound (exclusive) on every frequency the library handles.
pub const MAX_HZ: u64 = 4294967296;

/// Full-scale velocity and amplitude: values range over `0 ..= MAX_VELOCITY`.
pub const MAX_VELOCITY: u32 = 1000;

/// The playback-rate unit: a rate of `RATIO_ONE` advances one source
/// frame per output frame, `2 * RATIO_ONE` two frames, and so on.
pub const RATIO_ONE: u64 = 65536;

/// Largest representable playback rate, `MAX_HZ * RATIO_ONE`.
pub const MAX_RATIO: u64 = 281474976710656;

/// Largest number of frames a recording may hold.
pub const MAX_FRAMES: u64 = 4294967296;

/// Largest sample value a frame may hold.
pub const SAMPLE_MAX: i64 = 2147483647;

/// Smallest sample value a frame may hold.
pub const SAMPLE_MIN: i64 = -2147483648;

} // verus!
