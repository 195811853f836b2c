//! Fixed names shared by the whole program; run-time values live in `Settings`.

use vstd::prelude::*;

verus! {

/// Name of the directory that holds the configuration files.
pub const CONFIG_DIR_NAME: &'static str = "mihomors";
/// File name of the mihomo configuration.
pub const CONFIG_FILE: &'static str = "config.yaml";
/// File name of the front end's own settings.
pub const SETTINGS_FILE: &'static str = "settings.json";

} // verus!
