//! Application configuration: the one setting the catalog needs is where
//! the media library lives.  Loading and saving the file is the caller's
//! work; the shapes and their conversions live here.

use vstd::prelude::*;

verus! {

/// Persisted configuration.
#[derive(Debug)]
pub struct AppConfig {
    /// Root directory of the media library, once the user chose one.
    pub library_root: Option<String>,
}

impl Default for AppConfig {
    /// A fresh configuration has no library root yet.
    fn default() -> (c: AppConfig)
        ensures
            c.library_root is None,
    {
        AppConfig { library_root: Option::None }
    }
}

/// The configuration as handed to a viewer.
#[derive(Debug)]
pub struct AppConfigDto {
    pub library_root: Option<String>,
}

impl From<AppConfig> for AppConfigDto {
    /// The projection carries the root over unchanged.
    fn from(cfg: AppConfig) -> (d: AppConfigDto) {
        AppConfigDto { library_root: cfg.library_root }
    }
}

impl vstd::std_specs::convert::FromSpecImpl<AppConfig> for AppConfigDto {
    open spec fn obeys_from_spec() -> bool {
        true
    }

    open spec fn from_spec(cfg: AppConfig) -> AppConfigDto {
        AppConfigDto { library_root: cfg.library_root }
    }
}

} // verus!
