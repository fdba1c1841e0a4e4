use vstd::prelude::*;

verus! {

/// The application's settings.
#[derive(Debug, Clone, PartialEq)]
pub struct Config {
    pub server_port: u16,
    pub log_level: String,
}

/// The settings a configuration file gives; a missing one takes its default.
#[derive(Debug, Clone, PartialEq)]
pub struct ConfigFile {
    pub server_port: Option<u16>,
    pub log_level: Option<String>,
}

/// The port served on when nothing else is configured.
pub const DEFAULT_SERVER_PORT: u16 = 7878;

/// The log level when nothing else is configured.
pub open spec fn default_log_level() -> Seq<char> {
    "info"@
}

impl Default for Config {
    fn default() -> (r: Config)
        ensures
            r.server_port == DEFAULT_SERVER_PORT,
            r.log_level@ == default_log_level(),
    {
        Config { server_port: DEFAULT_SERVER_PORT, log_level: String::from_str("info") }
    }
}

impl Config {
    /// The settings in force: the defaults when there is no configuration file, and
    /// otherwise each setting the file gives, with the default for any it leaves out.
    pub fn load(file: Option<ConfigFile>) -> (r: Config)
        ensures
            file is None ==> r.server_port == DEFAULT_SERVER_PORT && r.log_level@ == default_log_level(),
            file matches Some(f) ==> r.server_port == (match f.server_port {
                Some(port) => port,
                None => DEFAULT_SERVER_PORT,
            }) && r.log_level@ == (match f.log_level {
                Some(level) => level@,
                None => default_log_level(),
            }),
    {
        let defaults = Config::default();
        match file {
            None => defaults,
            Some(f) => {
                let server_port = match f.server_port {
                    Some(port) => port,
                    None => defaults.server_port,
                };
                let log_level = match f.log_level {
                    Some(level) => level,
                    None => defaults.log_level,
                };
                Config { server_port, log_level }
            },
        }
    }
}

} // verus!
