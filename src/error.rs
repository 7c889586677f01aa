//! Errors reported by the chip handle. Each names the offending value.
use vstd::prelude::*;

verus! {

/// A precondition of the chip handle that a caller did not meet. No call that
/// returns one of these has changed the chip.
///
/// Register values are bytes by type, so there is no out-of-range value to
/// reject: the eight bits given are the eight bits written.
#[derive(Clone, Copy, Debug, PartialEq, Eq, Structural)]
pub enum Opl3Error {
    /// The sample rate is zero or too low for the resampler to step.
    InvalidConfiguration { sample_rate: u32 },
    /// The register address is above `0x1FF`.
    InvalidRegister { reg: u16 },
    /// The destination buffer holds fewer than `required` samples.
    BufferTooSmall { len: usize, required: usize },
    /// The two destination buffers differ in length.
    BufferMismatch { first: usize, second: usize },
}

} // verus!
