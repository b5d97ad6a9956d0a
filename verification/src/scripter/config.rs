//! The plugin's configuration record. Reading and writing it as a file is
//! the caller's part.

use vstd::prelude::*;

verus! {

/// The plugin's configuration
#[derive(Debug)]
pub struct Config {
    /// developer settings
    pub dev: Dev,
    /// logging settings
    pub log: Log,
}

/// Developer settings
#[derive(Debug)]
pub struct Dev {
    /// show the developer console
    pub console: bool,
    /// show dev mode tools
    pub dev_mode: bool,
}

/// Logging settings
#[derive(Debug)]
pub struct Log {
    /// configure logger level
    pub level: String,
    /// whether to display log targets
    pub targets: bool,
}

impl Default for Dev {
    fn default() -> (r: Dev)
        ensures
            !r.console,
            !r.dev_mode,
    {
        Dev { console: false, dev_mode: false }
    }
}

impl Default for Log {
    fn default() -> (r: Log)
        ensures
            r.level@ == Seq::<char>::empty(),
            !r.targets,
    {
        Log { level: String::new(), targets: false }
    }
}

impl Default for Config {
    fn default() -> (r: Config)
        ensures
            !r.dev.console,
            !r.dev.dev_mode,
            r.log.level@ == Seq::<char>::empty(),
            !r.log.targets,
    {
        Config { dev: Dev::default(), log: Log::default() }
    }
}

impl Config {
    /// The configuration saved when there is none yet: no console, no dev
    /// mode, logging at `info` without targets.
    pub fn initial() -> (r: Config)
        ensures
            !r.dev.console,
            !r.dev.dev_mode,
            r.log.level@ == "info"@,
            !r.log.targets,
    {
        Config {
            dev: Dev { console: false, dev_mode: false },
            log: Log { level: String::from_str("info"), targets: false },
        }
    }
}

} // verus!
