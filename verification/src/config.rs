//! The settings of the application.

use crate::error::Error;
use vstd::prelude::*;

verus! {

/// The settings of the application. There are none yet.
#[derive(Debug, Clone, Copy, PartialEq, Eq, Structural)]
pub struct AppConfig {}

impl AppConfig {
    /// The settings to start from: the stored ones, else the defaults.
    pub fn load_or_new(stored: Option<AppConfig>) -> (r: Result<AppConfig, Error>)
        ensures
            r == Ok::<AppConfig, Error>(
                match stored {
                    Some(config) => config,
                    None => AppConfig {  },
                },
            ),
    {
        match stored {
            Some(config) => Ok(config),
            None => Ok(AppConfig {  }),
        }
    }
}

impl Default for AppConfig {
    fn default() -> (config: AppConfig)
        ensures
            config == (AppConfig {  }),
    {
        AppConfig {  }
    }
}

} // verus!
