//! Line-oriented diffing and rendering for textual type reconstructions.
//!
//! The crate splits two text blocks into lines, computes a line-based edit
//! script between them, and renders the script as aligned, optionally
//! line-numbered text, preceded when requested by a provenance header.

pub mod engine;
pub mod header;
pub mod lines;
pub mod orchestrate;
pub mod record;
pub mod render;
pub mod text;
