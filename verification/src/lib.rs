pub mod clock;
pub mod command;
pub mod config;
pub mod error;
pub mod laws;
pub mod persistence;
pub mod protocol;
pub mod stats;
pub mod store;
pub mod text;
