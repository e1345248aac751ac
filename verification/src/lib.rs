//! A verified core for a directory-listing tool: status attribution from a
//! version-control working tree, ordered entry trees, shared column widths,
//! and column-aligned rendering in flat and tree modes.

pub mod display;
pub mod entry;
pub mod git;
pub mod icons;
pub mod platform;
pub mod render;
pub mod status;
pub mod text;
pub mod timestamp;
pub mod tree;
pub mod widths;
