use clashprobe::descriptor::Protocol;
use clashprobe::grafana_config::{Config, InfluxDbConfig, MissingSetting};
use clashprobe::influxdb::{metric_points, MetricPoint, DEAD_DELAY_MS};
use clashprobe::parser::{choose_payload, decode_base64_text, default_port_of};
use clashprobe::probe_result::{HandlerInfo, ProbeResult};

fn some(s: &str) -> Option<String> {
    Some(s.to_string())
}

#[test]
fn store_settings_with_defaults() {
    let c = Config::from_settings(None, some("org"), some("tok"), None).unwrap();
    assert_eq!(
        c,
        Config {
            influxdb: InfluxDbConfig {
                host: "http://localhost:8086".to_string(),
                org: "org".to_string(),
                token: "tok".to_string(),
                bucket: "macstats".to_string(),
            }
        }
    );
    let c = Config::from_settings(some("http://h:1"), some("o"), some("t"), some("b")).unwrap();
    assert_eq!(c.influxdb.host, "http://h:1");
    assert_eq!(c.influxdb.bucket, "b");
}

#[test]
fn store_settings_that_are_required() {
    assert_eq!(Config::from_settings(some("h"), None, some("t"), some("b")), Err(MissingSetting::Org));
    assert_eq!(Config::from_settings(None, None, None, None), Err(MissingSetting::Org));
    assert_eq!(
        Config::from_settings(some("h"), some("o"), None, some("b")),
        Err(MissingSetting::Token)
    );
}

#[test]
fn one_point_for_each_result() {
    let h = |n: &str| HandlerInfo { name: n.to_string(), protocol: "Ss".to_string(), endpoint: None };
    let mut stale = ProbeResult::from_error(&h("c"), "e");
    stale.delay_ms = Some(5);
    let results =
        vec![ProbeResult::from_success(&h("a"), 12), ProbeResult::from_error(&h("b"), "e"), stale];
    let points = metric_points(&results, "node-1", 1_700_000_000_000_000_000);
    let point = |name: &str, alive: bool, delay_ms: u64| MetricPoint {
        name: name.to_string(),
        protocol: "Ss".to_string(),
        node: "node-1".to_string(),
        alive,
        delay_ms,
        timestamp: 1_700_000_000_000_000_000,
    };
    assert_eq!(points, vec![point("a", true, 12), point("b", false, 99999), point("c", false, 99999)]);
    assert_eq!(DEAD_DELAY_MS, 99999);
    assert_eq!(metric_points(&Vec::new(), "n", 0), vec![]);
}

#[test]
fn payload_choice() {
    assert_eq!(choose_payload("raw", true, some("decoded")), "decoded");
    assert_eq!(choose_payload("raw", true, None), "raw");
    assert_eq!(choose_payload("raw", false, some("decoded")), "raw");
    assert_eq!(choose_payload("raw", false, None), "raw");
}

#[test]
fn base64_then_text() {
    assert_eq!(decode_base64_text("aGVsbG8="), some("hello"));
    assert_eq!(decode_base64_text("aGVsbG8"), None);
    assert_eq!(decode_base64_text("wyhB"), None);
    assert_eq!(decode_base64_text(""), some(""));
    assert_eq!(decode_base64_text("5pel5pys"), some("日本"));
}

#[test]
fn default_ports() {
    assert_eq!(default_port_of(&Protocol::Shadowsocks), 8388);
    assert_eq!(default_port_of(&Protocol::Trojan), 443);
    assert_eq!(default_port_of(&Protocol::Vless), 443);
    assert_eq!(default_port_of(&Protocol::Socks5), 1080);
    assert_eq!(default_port_of(&Protocol::Vmess), 8080);
    assert_eq!(default_port_of(&Protocol::Other("x".to_string())), 8080);
}
