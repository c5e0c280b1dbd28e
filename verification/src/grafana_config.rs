//! The configuration of a metrics store connection, as a standalone tool
//! takes it from its environment.

use vstd::prelude::*;
use vstd::string::StringExecFns;

verus! {

/// The connection to the metrics store.
#[derive(Debug, Clone, PartialEq, Eq)]
pub struct InfluxDbConfig {
    pub host: String,
    pub org: String,
    pub token: String,
    pub bucket: String,
}

/// The configuration of a standalone store connection.
#[derive(Debug, Clone, PartialEq, Eq)]
pub struct Config {
    pub influxdb: InfluxDbConfig,
}

/// A setting that has no default and was not given.
#[derive(Debug, Clone, Copy, PartialEq, Eq, Structural)]
pub enum MissingSetting {
    Org,
    Token,
}

impl Config {
    /// The configuration that the four settings give. Host and bucket have
    /// defaults; the organisation and the token are required, and the
    /// organisation is asked for first.
    pub fn from_settings(
        host: Option<String>,
        org: Option<String>,
        token: Option<String>,
        bucket: Option<String>,
    ) -> (r: Result<Config, MissingSetting>)
        ensures
            match r {
                Ok(c) => {
                    &&& org == Some(c.influxdb.org)
                    &&& token == Some(c.influxdb.token)
                    &&& match host {
                        Some(h) => c.influxdb.host == h,
                        None => c.influxdb.host@ == "http://localhost:8086"@,
                    }
                    &&& match bucket {
                        Some(b) => c.influxdb.bucket == b,
                        None => c.influxdb.bucket@ == "macstats"@,
                    }
                },
                Err(MissingSetting::Org) => org is None,
                Err(MissingSetting::Token) => org is Some && token is None,
            },
    {
        let host = match host {
            Some(h) => h,
            None => String::from_str("http://localhost:8086"),
        };
        let org = match org {
            Some(o) => o,
            None => {
                return Err(MissingSetting::Org);
            },
        };
        let token = match token {
            Some(t) => t,
            None => {
                return Err(MissingSetting::Token);
            },
        };
        let bucket = match bucket {
            Some(b) => b,
            None => String::from_str("macstats"),
        };
        Ok(Config { influxdb: InfluxDbConfig { host, org, token, bucket } })
    }
}

} // verus!
