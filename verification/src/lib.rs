//! A history-aware weighted selection engine.
//!
//! A pool of candidate values is kept together with a per-value usage count
//! that survives across runs.  A weight policy turns the counts into
//! selection weights, one value is drawn at random in proportion to those
//! weights, and the chosen value's count goes up by one, so that rarely
//! chosen values become progressively more likely.
//!
//! Weight parameters and computed weights are IEEE 754 binary64 values; the
//! library carries them as their bit patterns (see [`binary64`]) and states
//! its contracts over those patterns, while the caller performs the actual
//! binary64 arithmetic and the weighted draw.

pub mod binary64;
pub mod random;
pub mod settings;
pub mod weight;
