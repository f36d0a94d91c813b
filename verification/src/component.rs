//! What the host knows of a plugin component before it runs it.

use vstd::prelude::*;

verus! {

/// The manifest of an installed plugin: its id, name, version and
/// description, the endpoint that it serves under, its configuration
/// variables (no name twice) and its data directory.
pub struct PluginMeta {
    pub id: String,
    pub name: String,
    pub version: String,
    pub description: Option<String>,
    pub endpoint: String,
    pub variables: Vec<(String, String)>,
    pub data_dir: String,
}

} // verus!
