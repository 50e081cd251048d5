pub mod app;
pub mod args;
pub mod config;
pub mod error;
pub mod manifest;
pub mod package_list;
pub mod table;
pub mod text;
pub mod version;
