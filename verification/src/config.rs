//! The application's settings.

use vstd::prelude::*;

verus! {

/// The settings that the configuration files and the environment give.
#[derive(Debug, Clone)]
pub struct Config {
    /// Where the log is written.
    pub logging_path: String,
}

impl Config {
    /// Where the log is written.
    pub fn logging_path(&self) -> (r: &str)
        ensures
            r@ == self.logging_path@,
    {
        self.logging_path.as_str()
    }
}

} // verus!
