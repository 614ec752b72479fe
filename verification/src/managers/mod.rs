//! The package managers that the library knows the commands of.
pub mod brew;
