//! The user interface in the terminal.
pub mod answer_laws;
pub mod clipboard;
pub mod input;
pub mod key_laws;
pub mod keys;
pub mod line;
pub mod ready;
pub mod render;
pub mod selection;
pub mod state;
pub mod widgets;
