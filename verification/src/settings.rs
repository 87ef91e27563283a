//! Application settings: what the user may change in `settings.toml`.
//!
//! Reading and writing the file is the caller's I/O; a field missing from
//! the file takes its default.

use vstd::prelude::*;

use crate::i18n::Language;
use crate::update::DEFAULT_MANIFEST_URL;

verus! {

/// The colour scheme of the interface.
#[derive(Debug, Clone, Copy, PartialEq, Eq, Structural)]
pub enum Theme {
    /// Dark.
    Koyu,
    /// Light.
    Acik,
}

impl Default for Theme {
    /// Dark.
    fn default() -> (r: Theme)
        ensures
            r == Theme::Koyu,
    {
        Theme::Koyu
    }
}

/// Everything the user can set.
#[derive(Debug, Clone)]
pub struct AppSettings {
    /// A manifest address kept in the settings file; the update check
    /// uses the fixed official one (see `effective_manifest_url`).
    pub manifest_url: String,
    /// The colour scheme.
    pub tema: Theme,
    /// The interface language.
    pub dil: Language,
}

impl Default for AppSettings {
    /// The published manifest, the dark scheme and Turkish.
    fn default() -> (r: AppSettings)
        ensures
            r.manifest_url@ == DEFAULT_MANIFEST_URL@,
            r.tema == Theme::Koyu,
            r.dil == Language::Turkish,
    {
        AppSettings {
            manifest_url: String::from_str(DEFAULT_MANIFEST_URL),
            tema: Theme::Koyu,
            dil: Language::Turkish,
        }
    }
}

impl AppSettings {
    /// The manifest address to use. The official address is fixed in the
    /// application, whatever the settings file holds; only the override
    /// from the environment (`CISCO_MANIFEST_URL`, read by the caller)
    /// replaces it.
    pub fn effective_manifest_url(&self, env_override: Option<String>) -> (r: String)
        ensures
            r@ == (match env_override {
                Some(u) => u@,
                None => DEFAULT_MANIFEST_URL@,
            }),
    {
        match env_override {
            Some(u) => u,
            None => String::from_str(DEFAULT_MANIFEST_URL),
        }
    }
}

} // verus!
