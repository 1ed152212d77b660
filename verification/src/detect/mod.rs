pub mod ports;
pub mod projects;
pub mod templates;
