use vstd::prelude::*;

verus! {

/// Process-wide settings: the directory that searches are confined to, and how verbose
/// the diagnostics are.
#[derive(Debug, Clone)]
pub struct Config {
    pub files_root: String,
    pub log_level: String,
}

impl Config {
    /// Settings from a root directory and an optional log level, which defaults to `info`.
    pub fn new(files_root: String, log_level: Option<String>) -> (r: Config)
        ensures
            r.files_root@ == files_root@,
            log_level is Some ==> r.log_level@ == log_level->Some_0@,
            log_level is None ==> r.log_level@ == "info"@,
    {
        let log_level = match log_level {
            Some(level) => level,
            None => String::from_str("info"),
        };
        Config { files_root, log_level }
    }
}

} // verus!
