use vstd::prelude::*;

verus! {

/// Length of the time-domain frame handed to the FFT.
pub const FFT_SIZE: usize = 256;

/// Number of frequency bins of a real FFT of `FFT_SIZE` points (DC to Nyquist).
pub const FFT_SIZE_BY_2_PLUS_1: usize = 129;

/// Number of frames of the estimator's start-up phase, and the length of
/// each quantile tracker's update period.
pub const LONG_STARTUP_PHASE_BLOCKS: i32 = 200;

} // verus!
