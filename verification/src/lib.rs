pub mod text;
pub mod cli;
pub mod cmd;
pub mod partial_config;
pub mod version;
