//! Timeline animation of transform components and sprite batching over a
//! shared texture atlas.
//!
//! Time is counted in whole milliseconds, progress through an entry is an exact
//! fraction, and transform values are fixed-point integers in thousandths.
pub mod animation;
pub mod atlas;
pub mod easing;
pub mod playback;
pub mod renderer;
pub mod transform;
