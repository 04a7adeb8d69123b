//! The decisions behind `promptforge run`, a command that runs one prompt
//! against a gateway.

pub mod args;
pub mod configuration;
pub mod laws;
pub mod mapping;
pub mod models;
pub mod report;
pub mod requirements;
pub mod run;
pub mod settings;
pub mod store;
pub mod terminal;
pub mod text;
