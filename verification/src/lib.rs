//! Noise-suppression building blocks whose integer logic is verified:
//! the scheduling of the quantile noise estimator's trackers, the packing
//! of a real FFT's spectrum into split real/imaginary bins and back, and
//! the element-wise batch application used by the fast-math helpers.
pub mod config;
pub mod fast_math;
pub mod ns_fft;
pub mod quantile_noise_estimator;
