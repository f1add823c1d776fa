//! The runtime between the user interface and the engine.
pub mod history;
pub mod runtime_laws;
pub mod service;
pub mod startup;
pub mod submission;
pub mod submission_laws;
