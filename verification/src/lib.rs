//! A stereo ducking compressor core in fixed-point arithmetic.
//!
//! Signal samples, parameter values and internal detector state are all
//! held as `i64` values in millionths (micro-units), so that the whole
//! per-sample path is exact integer arithmetic with saturating bounds:
//! it never panics, never allocates per sample, and two runs over the
//! same input are identical to the last bit.
//!
//! - `fixed` holds the saturating micro-unit arithmetic and its lemmas;
//! - `curves` holds the dB/gain mapping and the logistic soft-knee
//!   curve, as interpolated tables with proved monotonicity and bounds;
//! - `comp` holds the compressor itself: parameter mapping, the
//!   envelope follower, and the per-sample gain stage;
//! - `text` renders parameter values for display;
//! - `laws` states and proves the behavioural guarantees: silence
//!   decays the detector, the gain stays within its floor and unity,
//!   level conversion round-trips, and processing is deterministic.

pub mod comp;
pub mod curves;
pub mod fixed;
pub mod laws;
pub mod text;

pub use fixed::SCALE;
