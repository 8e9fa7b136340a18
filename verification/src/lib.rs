//! Scaffolds the three project documents of a Visual Studio C++ project
//! (solution, project and filters) from a list of classified source files.
//!
//! The crate works on text alone: skeletons come in as strings, documents
//! go out as strings, and reading or writing files is left to the caller.

pub mod code_file;
pub mod documents;
pub mod fragments;
pub mod guid;
pub mod text;

pub use fragments::{append_second_part_filter, append_second_part_vcxproj};
