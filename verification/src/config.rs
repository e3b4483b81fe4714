//! Where the configuration lives, and what it holds.
use vstd::prelude::*;
use vstd::string::StringExecFns;
use vstd::string::StringSliceAdditionalSpecFns;

use crate::path::{join, joined};

verus! {

/// The name of the theme used when none is configured.
pub const DEFAULT_THEME_NAME: &'static str = "Night Owl";

/// The locations used under a configuration root.
#[derive(Debug, Clone, PartialEq, Eq)]
pub struct ConfigPaths {
    pub root: Vec<u8>,
    pub config_file: Vec<u8>,
    pub themes_dir: Vec<u8>,
}

impl ConfigPaths {
    /// The paths under a known root: `config.toml` and the `themes`
    /// directory.
    pub fn from_root(root: &[u8]) -> (p: ConfigPaths)
        ensures
            p.root@ == root@,
            p.config_file@ == joined(root@, "config.toml".spec_bytes()),
            p.themes_dir@ == joined(root@, "themes".spec_bytes()),
    {
        ConfigPaths {
            config_file: join(root, "config.toml".as_bytes()),
            themes_dir: join(root, "themes".as_bytes()),
            root: crate::bytes::to_vec(root),
        }
    }
}

/// The theme section of the configuration.
#[derive(Debug, Clone, PartialEq, Eq)]
pub struct ThemeConfig {
    pub name: String,
}

impl Default for ThemeConfig {
    fn default() -> (c: ThemeConfig)
        ensures
            c.name@ == DEFAULT_THEME_NAME@,
    {
        ThemeConfig { name: String::from_str(DEFAULT_THEME_NAME) }
    }
}

/// The whole configuration.
#[derive(Debug, Clone, PartialEq, Eq)]
pub struct AppConfig {
    pub theme: ThemeConfig,
}

impl Default for AppConfig {
    fn default() -> (c: AppConfig)
        ensures
            c.theme.name@ == DEFAULT_THEME_NAME@,
    {
        AppConfig { theme: ThemeConfig::default() }
    }
}

} // verus!
