//! Line counting over files and directory trees, with name-based exclusion.
//!
//! The library decides; the caller performs the file-system work. Text is
//! counted by [`lines::count_text_lines`], names are filtered by
//! [`exclude::ExclusionSet`], and a tree is walked by [`walker::Walker`], a
//! state machine that asks for one read or listing at a time.

pub mod lines;
pub mod exclude;
pub mod model;
pub mod walker;
pub mod laws;
pub mod summary;
