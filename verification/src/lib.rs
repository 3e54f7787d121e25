//! Core of an mdBook preprocessor that replaces placeholder markers in
//! chapter text with generated QR-code image tags.
//!
//! The crate covers the marker-resolution and safe-substitution pipeline:
//! resolving a declarative configuration of named profiles into a validated
//! list of (marker, render-parameters, output-path) tuples, and rewriting
//! chapter text so that markers are replaced only outside fenced code blocks
//! and inline code spans. Rendering the image bytes and all file and stream
//! I/O live outside this crate.

use vstd::prelude::*;

pub mod bytes;
pub mod config;
pub mod diag;
pub mod html;
pub mod preprocessor;
pub mod url;
pub mod util;

verus! {

/// Dimensions fall back to this edge length (pixels) when absent or zero.
pub const DEFAULT_SIZE: u32 = 200;

} // verus!
