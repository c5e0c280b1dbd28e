use clashprobe::config::{Config, ModeError, WorkMode};

#[test]
fn validate_rejects_empty_mode_set() {
    let r = WorkMode::empty().validate();
    assert_eq!(r, Err("At least one work mode must be specified".to_string()));
}

#[test]
fn validate_accepts_any_mode() {
    assert_eq!(WorkMode::web().validate(), Ok(()));
    assert_eq!(WorkMode::cli().validate(), Ok(()));
    assert_eq!(WorkMode::web().union(WorkMode::influxdb()).validate(), Ok(()));
}

#[test]
fn default_configuration_values() {
    let c = Config::generate_default();
    assert_eq!(c.main.work_mode, WorkMode::web());
    assert_eq!(c.main.subscription_url, "http://your_clash_sub");
    assert_eq!(c.main.test_url, "http://www.gstatic.com/generate_204");
    assert_eq!(c.main.timeout, 5);
    assert_eq!(c.main.concurrent, 10);
    assert!(!c.main.verbose);
    assert_eq!(c.main.probe_interval, 30);
    assert_eq!(c.influxdb.host, "http://localhost:8086");
    assert_eq!(c.influxdb.org, "example-org");
    assert_eq!(c.influxdb.token, "REPLACE_WITH_TOKEN");
    assert_eq!(c.influxdb.bucket, "example-bucket");
    assert_eq!(c.influxdb.node_name, "default");
    assert_eq!(c.web.host, "127.0.0.1");
    assert_eq!(c.web.port, 8080);
    assert_eq!(c.teloxide.token, "REPLACE_WITH_TOKEN");
}

#[test]
fn mode_names_skip_the_command_line_mode() {
    let all = WorkMode::cli()
        .union(WorkMode::web())
        .union(WorkMode::influxdb())
        .union(WorkMode::teloxide());
    assert_eq!(all.mode_names(), vec!["Web", "InfluxDB", "Teloxide"]);
    assert_eq!(WorkMode::cli().mode_names(), Vec::<String>::new());
    assert_eq!(WorkMode::influxdb().mode_names(), vec!["InfluxDB"]);
}

#[test]
fn mode_names_are_read_back() {
    let names = vec!["Teloxide".to_string(), "Web".to_string()];
    let m = WorkMode::from_mode_names(&names).unwrap();
    assert!(m.contains(WorkMode::web()));
    assert!(m.contains(WorkMode::teloxide()));
    assert!(!m.contains(WorkMode::influxdb()));
    assert_eq!(m.bits, 10);
}

#[test]
fn unknown_mode_name_is_reported_with_its_position() {
    let names = vec!["Web".to_string(), "web".to_string(), "Nope".to_string()];
    assert_eq!(WorkMode::from_mode_names(&names), Err(ModeError::UnknownVariant(1)));
    assert_eq!(WorkMode::from_mode_name("CLI"), None);
}

#[test]
fn empty_mode_list_is_rejected() {
    assert_eq!(WorkMode::from_mode_names(&Vec::new()), Err(ModeError::EmptyModes));
}

#[test]
fn written_mode_names_are_read_back() {
    for bits in 0u8..16 {
        let mode = WorkMode { bits };
        let names = mode.mode_names();
        match WorkMode::from_mode_names(&names) {
            Ok(read) => assert_eq!(read.bits, bits & 14),
            Err(e) => {
                assert_eq!(e, ModeError::EmptyModes);
                assert_eq!(bits & 14, 0);
            }
        }
    }
}

#[test]
fn contains_asks_for_every_mode() {
    let both = WorkMode::web().union(WorkMode::influxdb());
    assert!(both.contains(WorkMode::web()));
    assert!(both.contains(both));
    assert!(both.contains(WorkMode::empty()));
    assert!(!WorkMode::web().contains(both));
    assert!(!both.is_empty());
    assert!(WorkMode::empty().is_empty());
    assert_eq!(WorkMode::default(), WorkMode::cli());
    assert_eq!(clashprobe::config::default_node_name(), "default");
}
