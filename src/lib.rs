pub mod config;
pub mod error;
pub mod lines;
pub mod mcp;
pub mod ripgrep;
