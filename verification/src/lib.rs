//! Scene-change detection for video: the sliding-window boundary scanner, the
//! pipeline's progress record, the parsing of probe output and the order of
//! the pipeline's stages.
//!
//! Everything here works on plain values. Reading frames from disk, measuring
//! the dissimilarity of two images and drawing the progress display are the
//! caller's part: the caller hands this library what it read or measured and
//! acts on what the library decides.
//!
//! A dissimilarity score is held as a `u64` whose order is the order of the
//! measured dissimilarity: a larger number means more different. The module
//! `score` gives the key of a measured number.

pub mod error;
pub mod pipeline;
pub mod probe;
pub mod rate;
pub mod scan;
pub mod score;
pub mod state;
pub mod text;
