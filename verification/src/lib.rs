//! Core logic of a terminal coding agent.
pub mod api;
pub mod base64;
pub mod command;
pub mod config;
pub mod db;
pub mod engine;
pub mod engine_laws;
pub mod json;
pub mod order;
pub mod path_laws;
pub mod paths;
pub mod prompt_laws;
pub mod prompts;
pub mod runtime;
pub mod subagents;
pub mod text;
pub mod text_laws;
pub mod tools;
pub mod tui;
pub mod types;
pub mod width;
