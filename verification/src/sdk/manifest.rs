//! A plugin's manifest, as far as the plugins read it.

use vstd::prelude::*;

verus! {

/// The `[plugin]` section.
#[derive(Debug, Clone)]
pub struct PluginMeta {
    pub name: String,
}

/// A plugin's manifest.
#[derive(Debug, Clone)]
pub struct PluginManifest {
    pub plugin: PluginMeta,
}

} // verus!
