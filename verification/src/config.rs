//! The service configuration: the optional API root shown on the
//! documentation page and the optional raster ceiling. Absent fields
//! fall back to defaults; a whole config is replaced, never edited.

use vstd::prelude::*;

verus! {

/// The raster ceiling used when none is configured.
pub const DEFAULT_CEILING: u64 = 1024;

/// The configuration a state runs under.
pub struct Config {
    pub api_root: Option<String>,
    pub max_raster_size: Option<u64>,
}

impl Config {
    /// The effective raster ceiling: the configured one, or the default.
    pub open spec fn spec_ceiling(self) -> u64 {
        match self.max_raster_size {
            Some(m) => m,
            None => DEFAULT_CEILING,
        }
    }

    /// The effective raster ceiling.
    pub fn ceiling(&self) -> (r: u64)
        ensures
            r == self.spec_ceiling(),
    {
        match self.max_raster_size {
            Some(m) => m,
            None => DEFAULT_CEILING,
        }
    }
}

impl Default for Config {
    /// The configuration of a fresh start: nothing set, every default in
    /// force.
    fn default() -> (r: Config)
        ensures
            r.api_root is None,
            r.max_raster_size is None,
    {
        Config { api_root: None, max_raster_size: None }
    }
}

} // verus!
