//! The plugin interface: request and answer types, the traits a plugin
//! implements, and the helpers that plugins share.

pub mod auth;
pub mod capabilities;
pub mod cell;
pub mod description;
pub mod error_codes;
pub mod host;
pub mod id_sources;
pub mod kinds;
pub mod logging;
pub mod manifest;
pub mod plugin;
pub mod result;
pub mod testing;
pub mod types;
