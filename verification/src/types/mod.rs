//! The data that the parts of the program hand to each other.
pub mod config;
pub mod display;
pub mod events;
pub mod message;
pub mod tool;
