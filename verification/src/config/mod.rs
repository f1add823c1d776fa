//! Where the program keeps its files.
pub mod project;
