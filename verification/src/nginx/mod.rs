pub mod config;
pub mod import;
pub mod manager;
