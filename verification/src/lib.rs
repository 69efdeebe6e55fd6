//! Motion-synthesis and compositing core for a screen-recording renderer.
//!
//! All continuous quantities (normalized coordinates, seconds, milliseconds,
//! zoom amounts, spring parameters) are carried as signed 64-bit fixed-point
//! numbers with six decimal places: the value `1.0` is `FX_ONE == 1_000_000`.
//! Every arithmetic helper saturates instead of wrapping, and every public
//! function states its result over the exact fixed-point semantics.

pub mod compose;
pub mod cursor;
pub mod export;
pub mod fixed;
pub mod settings;
pub mod spring;
pub mod zoom;
pub mod zoom_track;

pub use fixed::FX_ONE;
