//! Configuration model for the pipeline: connection settings, logging level
//! and processing policy. Loading a configuration file is left to the caller;
//! this module only fixes the shape of the settings and their defaults.

use vstd::prelude::*;

verus! {

/// Connection settings for the time-series backend. A non-empty `token`
/// together with a non-empty `org` selects the v2 dialect; otherwise the v1
/// dialect is used with `database` as the target container.
pub struct InfluxDbConfig {
    pub url: String,
    pub database: String,
    pub username: String,
    pub password: String,
    pub org: Option<String>,
    pub token: Option<String>,
}

/// Process-wide log verbosity, applied by the embedding program.
pub struct LoggingConfig {
    pub level: String,
}

/// Parsing and writing policy: how many records go into one write, and
/// whether a malformed row is skipped or aborts the parse.
pub struct ProcessingConfig {
    pub batch_size: usize,
    pub skip_invalid: bool,
}

/// The full configuration handed to the pipeline.
pub struct Config {
    pub influxdb: InfluxDbConfig,
    pub logging: LoggingConfig,
    pub processing: ProcessingConfig,
}

impl Config {
    /// The settings that apply when no configuration file is present.
    pub fn default() -> (c: Config)
        ensures
            c.influxdb.url@ == "http://localhost:8086"@,
            c.influxdb.database@ == "gnettrack"@,
            c.influxdb.username@ == Seq::<char>::empty(),
            c.influxdb.password@ == Seq::<char>::empty(),
            c.influxdb.org is None,
            c.influxdb.token is None,
            c.logging.level@ == "info"@,
            c.processing.batch_size == 1000,
            c.processing.skip_invalid == true,
    {
        Config {
            influxdb: InfluxDbConfig {
                url: "http://localhost:8086".to_owned(),
                database: "gnettrack".to_owned(),
                username: String::new(),
                password: String::new(),
                org: None,
                token: None,
            },
            logging: LoggingConfig { level: "info".to_owned() },
            processing: ProcessingConfig { batch_size: 1000, skip_invalid: true },
        }
    }
}

} // verus!
