//! Register-level front end for an OPL3 (YMF262) FM synthesis engine.
//!
//! A handle owns one engine, validates register writes, schedules buffered
//! writes at hardware-accurate intervals, and produces frames in six shapes:
//! stereo or four-channel, at the engine's native rate or resampled to the
//! handle's rate, one at a time or streamed.
pub mod chip;
pub mod engine;
pub mod error;
pub mod resample;
pub mod schedule;

pub use chip::{Opl3Chip, SINGLE_FRAME_LEN, STREAM_MIN_LEN};
pub use engine::{EchoEngine, SilentEngine, SynthEngine, ECHO_WRAP};
pub use error::Opl3Error;
pub use resample::{NATIVE_RATE, ratio_of, blend_sample};
pub use schedule::{RegWrite, WriteQueue, REGISTER_COUNT, WRITE_DELAY};
