//! A launcher for terminal programs: the model of launcher entries, the
//! config and usage-stats file formats, the ordering of the list, and the
//! state machine of the interactive screen.

pub mod text;
pub mod launcher;
pub mod stats;
pub mod config;
pub mod priority;
pub mod catalog;
pub mod labels;
pub mod app;


