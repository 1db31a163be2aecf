//! Plugins for a media player: what they search, read and hand back.

pub mod crypto;
pub mod env;
pub mod json;
pub mod magnet;
pub mod markup;
pub mod pkce;
pub mod providers;
pub mod release;
pub mod sdk;
pub mod size;
pub mod text;
