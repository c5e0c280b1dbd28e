use base64::Engine;
use clashprobe::descriptor::{check_descriptor, endpoint_for, EntryError, Protocol, ProxyDescriptor};
use clashprobe::parser::{
    decode_payload, link_descriptor, parse_clash_proxy_from_yaml, parse_clash_subscription,
    parse_lines, parse_payload, parse_proxy_url_to_clash_config, parse_stages, parse_structured,
    parse_text, ParseError,
};
use clashprobe::uri::UriParts;
use clashprobe::value::DocValue;
use clashprobe::vmess::vmess_descriptor;

fn b64(text: &str) -> String {
    base64::engine::general_purpose::STANDARD.encode(text)
}

fn text(s: &str) -> DocValue {
    DocValue::Text(s.to_string())
}

fn param(key: &str, value: DocValue) -> (String, DocValue) {
    (key.to_string(), value)
}

fn entry(key: &str, value: DocValue) -> (DocValue, DocValue) {
    (text(key), value)
}

fn vmess_link(json: &str) -> String {
    format!("vmess://{}", b64(json))
}

#[test]
fn vmess_link_round_trip() {
    let json = "{\"add\":\"1.2.3.4\",\"port\":\"443\",\"id\":\"uuid-x\",\"net\":\"ws\",\"path\":\"/p\",\"host\":\"h.example\",\"tls\":\"tls\",\"sni\":\"s.example\"}";
    let d = parse_proxy_url_to_clash_config(&vmess_link(json)).unwrap();
    assert_eq!(d.protocol, Protocol::Vmess);
    assert_eq!(d.server, "1.2.3.4");
    assert_eq!(d.port, 443);
    assert_eq!(d.display_name, "1.2.3.4:443");
    assert_eq!(
        d.protocol_parameters,
        vec![
            param("uuid", text("uuid-x")),
            param("alterId", DocValue::Number("0".to_string())),
            param("network", text("ws")),
            param(
                "ws-opts",
                DocValue::Mapping(vec![
                    entry("path", text("/p")),
                    entry("headers", DocValue::Mapping(vec![entry("Host", text("h.example"))])),
                ]),
            ),
            param("tls", DocValue::Flag(true)),
            param("servername", text("s.example")),
            param("skip-cert-verify", DocValue::Flag(true)),
        ]
    );
    assert_eq!(d.parameter("uuid"), Some(&text("uuid-x")));
    assert_eq!(d.parameter("tls"), Some(&DocValue::Flag(true)));
    assert_eq!(d.parameter("cipher"), None);
}

#[test]
fn vmess_name_alter_id_and_cipher() {
    let json = "{\"add\":\"v.example\",\"port\":\"8443\",\"ps\":\"My Node\",\"id\":\"u\",\"aid\":\"64\",\"scy\":\"aes-128-gcm\",\"net\":\"tcp\",\"path\":\"/x\"}";
    let d = parse_proxy_url_to_clash_config(&vmess_link(json)).unwrap();
    assert_eq!(d.display_name, "My Node");
    assert_eq!(d.port, 8443);
    assert_eq!(
        d.protocol_parameters,
        vec![
            param("uuid", text("u")),
            param("alterId", DocValue::Number("64".to_string())),
            param("cipher", text("aes-128-gcm")),
        ]
    );
}

#[test]
fn vmess_automatic_cipher_is_left_out() {
    let json = "{\"add\":\"v.example\",\"port\":\"1\",\"scy\":\"auto\"}";
    let d = parse_proxy_url_to_clash_config(&vmess_link(json)).unwrap();
    assert_eq!(d.port, 1);
    assert_eq!(d.protocol_parameters, vec![param("alterId", DocValue::Number("0".to_string()))]);
}

#[test]
fn vmess_port_falls_back_to_its_default() {
    for json in [
        "{\"add\":\"v.example\"}",
        "{\"add\":\"v.example\",\"port\":443}",
        "{\"add\":\"v.example\",\"port\":\"70000\"}",
        "{\"add\":\"v.example\",\"port\":\"44a\"}",
        "{\"add\":\"v.example\",\"port\":\"\"}",
    ] {
        let d = parse_proxy_url_to_clash_config(&vmess_link(json)).unwrap();
        assert_eq!(d.port, 10086, "{}", json);
        assert_eq!(d.display_name, "v.example:10086");
    }
    let d = parse_proxy_url_to_clash_config(&vmess_link("{\"add\":\"v.example\",\"port\":\"+0443\"}"))
        .unwrap();
    assert_eq!(d.port, 443);
}

#[test]
fn vmess_grpc_and_h2_options() {
    let grpc = "{\"add\":\"g.example\",\"port\":\"443\",\"net\":\"grpc\",\"path\":\"svc\",\"host\":\"ignored\"}";
    let d = parse_proxy_url_to_clash_config(&vmess_link(grpc)).unwrap();
    assert_eq!(
        d.protocol_parameters,
        vec![
            param("alterId", DocValue::Number("0".to_string())),
            param("network", text("grpc")),
            param("grpc-opts", DocValue::Mapping(vec![entry("grpc-service-name", text("svc"))])),
        ]
    );
    let h2 = "{\"add\":\"g.example\",\"port\":\"443\",\"net\":\"h2\",\"path\":\"/h\",\"host\":\"h2.example\"}";
    let d = parse_proxy_url_to_clash_config(&vmess_link(h2)).unwrap();
    assert_eq!(
        d.protocol_parameters,
        vec![
            param("alterId", DocValue::Number("0".to_string())),
            param("network", text("h2")),
            param(
                "h2-opts",
                DocValue::Mapping(vec![
                    entry("path", text("/h")),
                    entry("host", DocValue::List(vec![text("h2.example")])),
                ]),
            ),
        ]
    );
}

#[test]
fn vmess_empty_options_give_no_block() {
    let json = "{\"add\":\"w.example\",\"port\":\"80\",\"net\":\"ws\",\"path\":\"\",\"host\":\"\"}";
    let d = parse_proxy_url_to_clash_config(&vmess_link(json)).unwrap();
    assert_eq!(
        d.protocol_parameters,
        vec![param("alterId", DocValue::Number("0".to_string())), param("network", text("ws"))]
    );
    let other = "{\"add\":\"w.example\",\"port\":\"80\",\"net\":\"kcp\",\"path\":\"/p\"}";
    let d = parse_proxy_url_to_clash_config(&vmess_link(other)).unwrap();
    assert_eq!(
        d.protocol_parameters,
        vec![param("alterId", DocValue::Number("0".to_string())), param("network", text("kcp"))]
    );
}

#[test]
fn vmess_tls_without_server_name() {
    let json = "{\"add\":\"t.example\",\"port\":\"443\",\"tls\":\"tls\",\"sni\":\"\"}";
    let d = parse_proxy_url_to_clash_config(&vmess_link(json)).unwrap();
    assert_eq!(
        d.protocol_parameters,
        vec![
            param("alterId", DocValue::Number("0".to_string())),
            param("tls", DocValue::Flag(true)),
            param("skip-cert-verify", DocValue::Flag(true)),
        ]
    );
    let none = "{\"add\":\"t.example\",\"port\":\"443\",\"tls\":\"none\",\"sni\":\"x\"}";
    let d = parse_proxy_url_to_clash_config(&vmess_link(none)).unwrap();
    assert_eq!(d.protocol_parameters, vec![param("alterId", DocValue::Number("0".to_string()))]);
}

#[test]
fn vmess_failures_are_told_apart() {
    assert_eq!(
        parse_proxy_url_to_clash_config(&vmess_link("{\"port\":\"443\"}")),
        Err(EntryError::MissingServer)
    );
    assert_eq!(
        parse_proxy_url_to_clash_config(&vmess_link("not json")),
        Err(EntryError::InvalidDocument)
    );
    assert_eq!(
        parse_proxy_url_to_clash_config(&vmess_link("[1, 2]")),
        Err(EntryError::MissingServer)
    );
    assert_eq!(
        parse_proxy_url_to_clash_config("vmess://not-base64!"),
        Err(EntryError::InvalidEncoding)
    );
    let garbage = base64::engine::general_purpose::STANDARD.encode([0xc3u8, 0x28, 0x41]);
    assert_eq!(garbage, "wyhB");
    assert_eq!(
        parse_proxy_url_to_clash_config(&format!("vmess://{}", garbage)),
        Err(EntryError::InvalidEncoding)
    );
    assert_eq!(parse_proxy_url_to_clash_config("vmess:nohost"), Err(EntryError::MissingHost));
}

#[test]
fn vmess_document_given_directly() {
    let doc = DocValue::Mapping(vec![
        entry("ps", text("direct")),
        entry("add", text("d.example")),
        entry("port", text("9000")),
        entry("aid", DocValue::Number("5".to_string())),
    ]);
    let d = vmess_descriptor(&doc).unwrap();
    assert_eq!(
        d,
        ProxyDescriptor {
            display_name: "direct".to_string(),
            protocol: Protocol::Vmess,
            server: "d.example".to_string(),
            port: 9000,
            protocol_parameters: vec![param("alterId", DocValue::Number("0".to_string()))],
        }
    );
    assert_eq!(vmess_descriptor(&DocValue::Null), Err(EntryError::MissingServer));
}

#[test]
fn shadowsocks_user_info_in_base64() {
    let link = format!("ss://{}@ss.example:8388#Office", b64("aes-256-gcm:secret"));
    let d = parse_proxy_url_to_clash_config(&link).unwrap();
    assert_eq!(d.protocol, Protocol::Shadowsocks);
    assert_eq!(d.server, "ss.example");
    assert_eq!(d.port, 8388);
    assert_eq!(d.display_name, "Office");
    assert_eq!(
        d.protocol_parameters,
        vec![param("cipher", text("aes-256-gcm")), param("password", text("secret"))]
    );
}

#[test]
fn shadowsocks_literal_user_info() {
    let d = parse_proxy_url_to_clash_config("ss://user:pass@host.example").unwrap();
    assert_eq!(d.port, 8388);
    assert_eq!(d.display_name, "host.example:8388");
    assert_eq!(
        d.protocol_parameters,
        vec![param("cipher", text("user")), param("password", text("pass"))]
    );
}

#[test]
fn shadowsocks_password_may_hold_colons() {
    let link = format!("ss://{}@ss.example:1000", b64("chacha20:a:b:cd"));
    let d = parse_proxy_url_to_clash_config(&link).unwrap();
    assert_eq!(
        d.protocol_parameters,
        vec![param("cipher", text("chacha20")), param("password", text("a:b:cd"))]
    );
}

#[test]
fn shadowsocks_without_usable_credentials() {
    let d = parse_proxy_url_to_clash_config("ss://plainuser@ss.example:1000").unwrap();
    assert_eq!(d.protocol_parameters, vec![]);
    let d = parse_proxy_url_to_clash_config("ss://ss.example:1000").unwrap();
    assert_eq!(d.protocol_parameters, vec![]);
    let link = format!("ss://{}@ss.example:1000", b64("nocolon"));
    let d = parse_proxy_url_to_clash_config(&link).unwrap();
    assert_eq!(d.protocol_parameters, vec![]);
}

#[test]
fn trojan_link() {
    let d = parse_proxy_url_to_clash_config("trojan://p4ss@t.example#My%20Trojan").unwrap();
    assert_eq!(d.protocol, Protocol::Trojan);
    assert_eq!(d.server, "t.example");
    assert_eq!(d.port, 443);
    assert_eq!(d.display_name, "My Trojan");
    assert_eq!(d.protocol_parameters, vec![param("password", text("p4ss"))]);
    let d = parse_proxy_url_to_clash_config("trojan://t.example:8443").unwrap();
    assert_eq!(d.port, 8443);
    assert_eq!(d.display_name, "t.example:8443");
    assert_eq!(d.protocol_parameters, vec![]);
}

#[test]
fn socks5_link() {
    let d = parse_proxy_url_to_clash_config("socks5://u:p@s.example").unwrap();
    assert_eq!(d.protocol, Protocol::Socks5);
    assert_eq!(d.port, 1080);
    assert_eq!(
        d.protocol_parameters,
        vec![param("username", text("u")), param("password", text("p"))]
    );
    let encoded = format!("socks5://{}@s.example:1", b64("a:b").trim_end_matches('='));
    let d = parse_proxy_url_to_clash_config(&encoded).unwrap();
    assert_eq!(d.port, 1);
    assert_eq!(d.protocol_parameters, vec![param("username", text("YTpi"))]);
    let d = parse_proxy_url_to_clash_config("socks5://s.example").unwrap();
    assert_eq!(d.protocol_parameters, vec![]);
}

#[test]
fn vless_link_has_no_parameters() {
    let d = parse_proxy_url_to_clash_config("vless://id@v.example#n").unwrap();
    assert_eq!(d.protocol, Protocol::Vless);
    assert_eq!(d.port, 443);
    assert_eq!(d.display_name, "n");
    assert_eq!(d.protocol_parameters, vec![]);
}

#[test]
fn fragment_that_does_not_decode_is_kept() {
    let d = parse_proxy_url_to_clash_config("trojan://p@t.example#%FF%FE").unwrap();
    assert_eq!(d.display_name, "%FF%FE");
    let d = parse_proxy_url_to_clash_config("trojan://p@t.example#a%2Bb%zz").unwrap();
    assert_eq!(d.display_name, "a+b%zz");
}

#[test]
fn link_failures_are_told_apart() {
    assert_eq!(parse_proxy_url_to_clash_config("no scheme here"), Err(EntryError::InvalidUri));
    assert_eq!(
        parse_proxy_url_to_clash_config("http://example.com"),
        Err(EntryError::UnsupportedProtocol)
    );
    assert_eq!(
        parse_proxy_url_to_clash_config("hysteria://example.com:443"),
        Err(EntryError::UnsupportedProtocol)
    );
    assert_eq!(parse_proxy_url_to_clash_config("ss:opaque"), Err(EntryError::MissingHost));
}

#[test]
fn links_are_taken_with_the_port_they_give() {
    for (link, port) in [
        ("ss://u:p@h.example:0", 0u16),
        ("trojan://p@h.example:0", 0),
        ("socks5://h.example:0", 0),
        ("vless://h.example:0", 0),
        ("ss://u:p@h.example:1", 1),
        ("trojan://p@h.example:65535", 65535),
        ("socks5://h.example:8388", 8388),
        ("ss://u:p@h.example", 8388),
        ("trojan://p@h.example", 443),
        ("vless://h.example", 443),
        ("socks5://h.example", 1080),
    ] {
        let d = parse_proxy_url_to_clash_config(link).unwrap();
        assert_eq!(d.server, "h.example", "{}", link);
        assert_eq!(d.port, port, "{}", link);
    }
}

#[test]
fn vmess_server_and_port_are_taken_as_given() {
    let d = parse_proxy_url_to_clash_config(&vmess_link("{\"add\":\"\",\"port\":\"443\"}"))
        .unwrap();
    assert_eq!(d.server, "");
    assert_eq!(d.port, 443);
    assert_eq!(d.display_name, ":443");
    let d = parse_proxy_url_to_clash_config(&vmess_link("{\"add\":\"a\",\"port\":\"0\"}"))
        .unwrap();
    assert_eq!(d.server, "a");
    assert_eq!(d.port, 0);
    assert_eq!(d.display_name, "a:0");
}

#[test]
fn fitness_is_a_test_of_its_own() {
    let fit = parse_proxy_url_to_clash_config("trojan://p@h.example:1").unwrap();
    let copy = parse_proxy_url_to_clash_config("trojan://p@h.example:1").unwrap();
    assert_eq!(check_descriptor(fit), Ok(copy));
    let zero = parse_proxy_url_to_clash_config("trojan://p@h.example:0").unwrap();
    assert_eq!(check_descriptor(zero), Err(EntryError::InvalidPort));
    let nameless =
        parse_proxy_url_to_clash_config(&vmess_link("{\"add\":\"\",\"port\":\"0\"}")).unwrap();
    assert_eq!(check_descriptor(nameless), Err(EntryError::MissingServer));
}

#[test]
fn link_parts_given_directly() {
    let uri = UriParts {
        scheme: "ss".to_string(),
        username: "blob".to_string(),
        password: None,
        host: Some("h.example".to_string()),
        port: None,
        fragment: Some("raw%20name".to_string()),
    };
    let d = link_descriptor(
        &uri,
        Protocol::Shadowsocks,
        Some("raw name".to_string()),
        Some("rc4:pw".to_string()),
    )
    .unwrap();
    assert_eq!(d.display_name, "raw name");
    assert_eq!(d.port, 8388);
    assert_eq!(
        d.protocol_parameters,
        vec![param("cipher", text("rc4")), param("password", text("pw"))]
    );
    let d = link_descriptor(&uri, Protocol::Shadowsocks, None, None).unwrap();
    assert_eq!(d.display_name, "raw%20name");
    assert_eq!(d.protocol_parameters, vec![]);
    let empty_host = UriParts { host: Some(String::new()), port: Some(0), ..uri.clone() };
    let d = link_descriptor(&empty_host, Protocol::Trojan, None, None).unwrap();
    assert_eq!(d.server, "");
    assert_eq!(d.port, 0);
    assert_eq!(d.display_name, "raw%20name");
    let no_host = UriParts { host: None, ..uri };
    assert_eq!(
        link_descriptor(&no_host, Protocol::Trojan, None, None),
        Err(EntryError::MissingHost)
    );
}

#[test]
fn lines_keep_their_order_and_skip_noise() {
    let payload = "# a comment\n\n  trojan://p@one.example#one  \r\nnot a link\nss://u:p@two.example:1#two\n   \n#ss://u:p@hidden.example\nhttp://three.example\nsocks5://four.example#four";
    let list = parse_lines(payload);
    let names: Vec<&str> = list.iter().map(|d| d.display_name.as_str()).collect();
    assert_eq!(names, vec!["one", "two", "four"]);
    assert_eq!(parse_lines(""), vec![]);
    assert_eq!(parse_lines("\n\n"), vec![]);
    let last = parse_lines("trojan://p@one.example#one\n");
    assert_eq!(last.len(), 1);
}

#[test]
fn line_payload_through_the_whole_parser() {
    let payload = "trojan://p@one.example#one\nss://u:p@two.example:1#two\n";
    let list = parse_clash_subscription(payload).unwrap();
    assert_eq!(list.len(), 2);
    assert_eq!(list[0].display_name, "one");
    assert_eq!(list[1].display_name, "two");
    assert_eq!(list, parse_lines(payload));
}

#[test]
fn encoded_payload_is_decoded_first() {
    let plain = "trojan://p@one.example#one\nss://u:p@two.example:1#two\nvless://x@v.example";
    let encoded = b64(plain);
    assert_eq!(decode_payload(&encoded), plain);
    assert_eq!(parse_clash_subscription(&encoded), parse_clash_subscription(plain));
    assert_eq!(parse_clash_subscription(&encoded).unwrap().len(), 3);
}

#[test]
fn payload_that_is_no_base64_is_left_alone() {
    assert_eq!(decode_payload("abc"), "abc");
    assert_eq!(decode_payload("ab c"), "ab c");
    assert_eq!(decode_payload("ab=c"), "ab=c");
    assert_eq!(decode_payload(""), "");
    assert_eq!(decode_payload("aGVsbG8="), "hello");
}

#[test]
fn encoded_binary_garbage_is_read_as_plain_text() {
    let garbage = base64::engine::general_purpose::STANDARD.encode([0xffu8, 0xfe, 0xfd, 0x00, 0x80, 0x81]);
    assert_eq!(garbage.len() % 4, 0);
    assert_eq!(decode_payload(&garbage), garbage);
    assert_eq!(parse_payload(&garbage), parse_text(&garbage));
    assert_eq!(parse_payload(&garbage), vec![]);
    assert_eq!(parse_clash_subscription(&garbage), Err(ParseError::NoDescriptors));
    let document = serde_yaml::from_str::<serde_yaml::Value>(&garbage).ok();
    assert!(document.is_some());
    assert_eq!(parse_lines(&garbage), vec![]);
}

#[test]
fn encoded_garbage_with_links_around_it_is_read_as_plain_text() {
    let undecodable = "wyhB";
    assert_eq!(decode_payload(undecodable), undecodable);
    let plain = "trojan://p@one.example#one";
    assert_eq!(parse_payload(plain), parse_text(plain));
    assert_eq!(parse_payload(plain).len(), 1);
    let encoded = b64(plain);
    assert_eq!(parse_payload(&encoded), parse_text(plain));
    assert_eq!(parse_text(&encoded), vec![]);
}

#[test]
fn payload_without_descriptors_fails() {
    assert_eq!(parse_clash_subscription(""), Err(ParseError::NoDescriptors));
    assert_eq!(parse_clash_subscription("# nothing\n\n"), Err(ParseError::NoDescriptors));
    assert_eq!(parse_clash_subscription("proxies: []\n"), Err(ParseError::NoDescriptors));
    assert_eq!(parse_clash_subscription("http://example.com\n"), Err(ParseError::NoDescriptors));
}

const DOCUMENT: &str = "port: 7890
proxies:
  - name: first
    type: ss
    server: a.example
    port: 8388
    cipher: aes-256-gcm
    password: pw
    udp: true
  - name: no-server
    type: trojan
    port: 443
  - just a string
  - name: second
    type: vmess
    server: b.example
    port: 443
    uuid: u-1
    alterId: 0
    ws-opts:
      path: /ws
      headers:
        Host: b.example
  - name: bad-port
    type: trojan
    server: c.example
    port: 70000
  - name: text-port
    type: trojan
    server: c.example
    port: \"443\"
  - type: trojan
    server: d.example
    port: 443
  - name: third
    type: hysteria2
    server: e.example
    port: 1
    alpn:
      - h3
";

#[test]
fn structured_document_decides_alone() {
    let list = parse_clash_subscription(DOCUMENT).unwrap();
    let names: Vec<&str> = list.iter().map(|d| d.display_name.as_str()).collect();
    assert_eq!(names, vec!["first", "second", "third"]);
    assert_eq!(
        list[0],
        ProxyDescriptor {
            display_name: "first".to_string(),
            protocol: Protocol::Shadowsocks,
            server: "a.example".to_string(),
            port: 8388,
            protocol_parameters: vec![
                param("cipher", text("aes-256-gcm")),
                param("password", text("pw")),
                param("udp", DocValue::Flag(true)),
            ],
        }
    );
    assert_eq!(list[1].protocol, Protocol::Vmess);
    assert_eq!(
        list[1].protocol_parameters,
        vec![
            param("uuid", text("u-1")),
            param("alterId", DocValue::Number("0".to_string())),
            param(
                "ws-opts",
                DocValue::Mapping(vec![
                    entry("path", text("/ws")),
                    entry("headers", DocValue::Mapping(vec![entry("Host", text("b.example"))])),
                ]),
            ),
        ]
    );
    assert_eq!(list[2].protocol, Protocol::Other("hysteria2".to_string()));
    assert_eq!(list[2].port, 1);
    assert_eq!(
        list[2].protocol_parameters,
        vec![param("alpn", DocValue::List(vec![text("h3")]))]
    );
}

#[test]
fn structured_stage_shuts_out_the_lines() {
    let mixed = "proxies:\n  - {name: only, type: trojan, server: s.example, port: 443, password: p}\n# trojan://p@line.example#line\n";
    let list = parse_clash_subscription(mixed).unwrap();
    assert_eq!(list.len(), 1);
    assert_eq!(list[0].display_name, "only");
    let encoded = b64(mixed);
    assert_eq!(parse_clash_subscription(&encoded).unwrap(), list);
}

#[test]
fn structured_entries_that_all_fail_leave_the_lines() {
    let doc = DocValue::Mapping(vec![entry(
        "proxies",
        DocValue::List(vec![text("x"), DocValue::Mapping(vec![entry("name", text("n"))])]),
    )]);
    assert_eq!(parse_structured(&doc), vec![]);
    let list = parse_stages(Some(doc), "trojan://p@line.example#line");
    assert_eq!(list.len(), 1);
    assert_eq!(list[0].display_name, "line");
    let list = parse_stages(None, "trojan://p@line.example#line");
    assert_eq!(list.len(), 1);
}

#[test]
fn structured_entry_failures_are_told_apart() {
    let full = vec![
        entry("name", text("n")),
        entry("type", text("trojan")),
        entry("server", text("s.example")),
        entry("port", DocValue::Number("443".to_string())),
    ];
    let copy = |entries: &Vec<(DocValue, DocValue)>| -> Vec<(DocValue, DocValue)> {
        entries.iter().map(|(k, v)| (k.duplicate(), v.duplicate())).collect()
    };
    let without = |key: &str| {
        DocValue::Mapping(copy(&full).into_iter().filter(|(k, _)| k != &text(key)).collect())
    };
    assert!(parse_clash_proxy_from_yaml(&DocValue::Mapping(copy(&full))).is_ok());
    assert_eq!(parse_clash_proxy_from_yaml(&text("x")), Err(EntryError::NotAMapping));
    assert_eq!(parse_clash_proxy_from_yaml(&without("name")), Err(EntryError::MissingName));
    assert_eq!(parse_clash_proxy_from_yaml(&without("type")), Err(EntryError::MissingType));
    assert_eq!(parse_clash_proxy_from_yaml(&without("server")), Err(EntryError::MissingServer));
    assert_eq!(parse_clash_proxy_from_yaml(&without("port")), Err(EntryError::InvalidPort));
    let mut zero = copy(&full);
    zero[3] = entry("port", DocValue::Number("0".to_string()));
    assert_eq!(parse_clash_proxy_from_yaml(&DocValue::Mapping(zero)).unwrap().port, 0);
    let mut empty = copy(&full);
    empty[2] = entry("server", text(""));
    assert_eq!(parse_clash_proxy_from_yaml(&DocValue::Mapping(empty)).unwrap().server, "");
    for port in [text("443"), DocValue::Number("70000".to_string()), DocValue::Number("-1".to_string()), DocValue::Number("1.5".to_string()), DocValue::Null] {
        let mut other = copy(&full);
        other[3] = entry("port", port);
        assert_eq!(
            parse_clash_proxy_from_yaml(&DocValue::Mapping(other)),
            Err(EntryError::InvalidPort)
        );
    }
    let mut untexted = copy(&full);
    untexted[2] = entry("server", DocValue::Number("1".to_string()));
    assert_eq!(
        parse_clash_proxy_from_yaml(&DocValue::Mapping(untexted)),
        Err(EntryError::MissingServer)
    );
    let mut keyed = full;
    keyed.push((DocValue::Number("7".to_string()), text("dropped")));
    keyed.push(entry("kept", DocValue::Null));
    let d = parse_clash_proxy_from_yaml(&DocValue::Mapping(keyed)).unwrap();
    assert_eq!(d.protocol_parameters, vec![param("kept", DocValue::Null)]);
}

#[test]
fn document_values_are_read_variant_by_variant() {
    let doc = "proxies:\n  - name: n\n    type: t\n    server: s\n    port: 5\n    a: null\n    b: -3\n    c: 1.5\n    d: !tag inner\n    e: [1, {k: v}]\n    7: seven\n";
    let list = parse_clash_subscription(doc).unwrap();
    assert_eq!(
        list[0].protocol_parameters,
        vec![
            param("a", DocValue::Null),
            param("b", DocValue::Number("-3".to_string())),
            param("c", DocValue::Number("1.5".to_string())),
            param("d", DocValue::Tagged("!tag".to_string(), Box::new(text("inner")))),
            param(
                "e",
                DocValue::List(vec![
                    DocValue::Number("1".to_string()),
                    DocValue::Mapping(vec![entry("k", text("v"))]),
                ]),
            ),
        ]
    );
}

fn tagged(tag: &str, inner: DocValue) -> DocValue {
    DocValue::Tagged(tag.to_string(), Box::new(inner))
}

#[test]
fn tags_are_looked_through() {
    let entry_value = tagged(
        "!entry",
        tagged(
            "!again",
            DocValue::Mapping(vec![
                entry("name", tagged("!s", text("n"))),
                (tagged("!k", text("type")), text("trojan")),
                entry("server", text("s.example")),
                entry("port", tagged("!p", DocValue::Number("443".to_string()))),
                (tagged("!k", text("extra")), tagged("!v", text("kept as it is"))),
            ]),
        ),
    );
    let expected = ProxyDescriptor {
        display_name: "n".to_string(),
        protocol: Protocol::Trojan,
        server: "s.example".to_string(),
        port: 443,
        protocol_parameters: vec![param("extra", tagged("!v", text("kept as it is")))],
    };
    assert_eq!(parse_clash_proxy_from_yaml(&entry_value), Ok(expected));
    let doc = tagged(
        "!doc",
        DocValue::Mapping(vec![entry(
            "proxies",
            tagged("!list", DocValue::List(vec![entry_value.duplicate(), text("x")])),
        )]),
    );
    let list = parse_structured(&doc);
    assert_eq!(list.len(), 1);
    assert_eq!(list[0].display_name, "n");
    assert_eq!(doc.get("proxies").map(|v| v.untag()), Some(&DocValue::List(vec![entry_value, text("x")])));
    let keyed = DocValue::Mapping(vec![(tagged("!k", text("proxies")), DocValue::List(vec![]))]);
    assert_eq!(keyed.get("proxies"), None);
    assert_eq!(tagged("!a", tagged("!b", text("t"))).as_text(), Some(&"t".to_string()));
    assert_eq!(tagged("!a", DocValue::Null).as_text(), None);
    assert_eq!(text("t").untag(), &text("t"));
}

#[test]
fn tagged_document_text() {
    let doc = "proxies: !x\n  - !y {name: !z n, type: t, server: s, port: !p 5, k: !v w}\n";
    let list = parse_clash_subscription(doc).unwrap();
    assert_eq!(list.len(), 1);
    assert_eq!(list[0].display_name, "n");
    assert_eq!(list[0].protocol, Protocol::Other("t".to_string()));
    assert_eq!(list[0].port, 5);
    assert_eq!(list[0].protocol_parameters, vec![param("k", tagged("!v", text("w")))]);
}

#[test]
fn the_last_entry_of_a_field_counts() {
    let value = DocValue::Mapping(vec![
        entry("name", text("first")),
        entry("type", text("ss")),
        entry("server", text("s.example")),
        entry("port", DocValue::Number("1".to_string())),
        (tagged("!k", text("name")), text("second")),
        (tagged("!k", text("port")), DocValue::Number("2".to_string())),
    ]);
    let d = parse_clash_proxy_from_yaml(&value).unwrap();
    assert_eq!(d.display_name, "second");
    assert_eq!(d.port, 2);
    assert_eq!(d.protocol_parameters, vec![]);
}

#[test]
fn endpoint_of_a_name() {
    let list = parse_lines("trojan://p@one.example:1#a\nss://u:p@two.example:2#b\ntrojan://p@three.example:3#a");
    assert_eq!(endpoint_for(&list, "a"), Some(("one.example".to_string(), 1)));
    assert_eq!(endpoint_for(&list, "b"), Some(("two.example".to_string(), 2)));
    assert_eq!(endpoint_for(&list, "c"), None);
    assert_eq!(endpoint_for(&list, ""), None);
    assert_eq!(endpoint_for(&Vec::new(), "a"), None);
}
