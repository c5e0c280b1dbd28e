//! Verified core of a proxy subscription prober: parsing subscription
//! payloads into proxy descriptors, ranking probe results and scheduling
//! probe cycles for result consumers.

pub mod bindings;
pub mod config;
pub mod descriptor;
pub mod grafana_config;
pub mod influxdb;
pub mod output;
pub mod parser;
pub mod probe_engine;
pub mod probe_result;
pub mod ranking;
pub mod reporter;
pub mod subscription;
pub mod text;
pub mod uri;
pub mod value;
pub mod vmess;
