//! Per-app device-property spoofing rules: package-name rules, configuration
//! parsing, companion rule matching and the companion wire protocol.

pub mod text;
pub mod names;
pub mod server;
pub mod protocol;
pub mod config;
pub mod defaults;
pub mod hook;
pub mod specialize;
pub mod builtin;
