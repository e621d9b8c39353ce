pub mod config;
pub mod errors;
pub mod time;
pub mod types;
