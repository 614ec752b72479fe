//! Package descriptions for a meta package manager: parsing package specifications,
//! rendering them for package-manager command lines, and the Homebrew command table.
pub mod text;
pub mod location;
pub mod common;
pub mod package;
pub mod managers;
pub mod console;
pub mod outcome;
pub mod laws;
