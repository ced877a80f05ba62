//! Verified core of the DeepFilter audio engine: recording and playback
//! state, frame scheduling for the noise filter, the model archive and its
//! configuration, and the engine's control state machine.
use vstd::prelude::*;

pub mod engine;
pub mod frames;
pub mod metrics;
pub mod model;
pub mod player;
pub mod recorder;
pub mod seqs;
pub mod stream;
pub mod text;
pub mod wav;

verus! {

/// Sample rate of every stream handled by the engine, in Hz.
pub const SAMPLE_RATE: u32 = 48000;

/// Number of audio channels (mono).
pub const CHANNELS: u16 = 1;

/// Samples per processing frame: 10 ms at 48 kHz, the filter's hop size.
pub const FRAME_SIZE: usize = 480;

} // verus!
