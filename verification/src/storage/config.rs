//! The interface's saved settings and where they are kept.  Reading and
//! writing the file (as JSON) happen outside the library.
use vstd::prelude::*;

use crate::text::concat_str;

verus! {

/// The saved settings: the colour theme in use.
#[derive(Debug, Clone, Copy, PartialEq, Eq, Structural)]
pub struct AppConfig {
    pub theme_index: usize,
}

impl Default for AppConfig {
    /// The first theme.
    fn default() -> (c: Self)
        ensures
            c.theme_index == 0,
    {
        AppConfig { theme_index: 0 }
    }
}

/// Where the settings are kept, from the values of `BASKET_CONFIG_PATH` and
/// `HOME`: the former when set, else `.basket_config.json` in the home
/// directory (`/home/unknown` when `HOME` is not set).
pub open spec fn config_path_spec(config_var: Option<Seq<char>>, home_var: Option<Seq<char>>) -> Seq<char> {
    match config_var {
        Some(p) => p,
        None => match home_var {
            Some(h) => h + "/.basket_config.json"@,
            None => "/home/unknown"@ + "/.basket_config.json"@,
        },
    }
}

/// Where the settings are kept, from the values of `BASKET_CONFIG_PATH` and
/// `HOME`.
pub fn config_path(config_var: Option<String>, home_var: Option<String>) -> (p: String)
    ensures
        p@ == config_path_spec(
            match config_var {
                Some(s) => Some(s@),
                None => None,
            },
            match home_var {
                Some(s) => Some(s@),
                None => None,
            },
        ),
{
    match config_var {
        Some(p) => p,
        None => match home_var {
            Some(h) => concat_str(h.as_str(), "/.basket_config.json"),
            None => concat_str("/home/unknown", "/.basket_config.json"),
        },
    }
}

/// The settings that a read of the settings file gave: what it held, or the
/// defaults when it could not be read or parsed.
pub fn config_or_default(read: Option<AppConfig>) -> (c: AppConfig)
    ensures
        c == match read {
            Some(r) => r,
            None => AppConfig { theme_index: 0 },
        },
{
    match read {
        Some(r) => r,
        None => AppConfig::default(),
    }
}

} // verus!
