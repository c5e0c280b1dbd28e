use clashprobe::descriptor::{make_endpoint_label, Protocol};
use clashprobe::subscription::{
    check_status, is_base64, subscription_source, FetchError, SubscriptionSource,
};
use clashprobe::text::{
    chars_of, find_from, is_space_char, parse_u16, push_decimal, push_text, same_text,
    text_of_range, trim_bounds,
};
use clashprobe::value::DocValue;
use clashprobe::vmess::{read_non_empty_text, read_u16_field};

fn chars(s: &str) -> Vec<char> {
    s.chars().collect()
}

#[test]
fn base64_look() {
    assert!(is_base64(""));
    assert!(is_base64("abcd"));
    assert!(is_base64("ab+/"));
    assert!(is_base64("ab=="));
    assert!(is_base64("===="));
    assert!(!is_base64("abc"));
    assert!(!is_base64("abcde"));
    assert!(!is_base64("ab d"));
    assert!(!is_base64("abc\n"));
    assert!(!is_base64("ab-_"));
    assert!(!is_base64("éé"));
    assert!(!is_base64("ééab"));
    assert!(is_base64("AZaz09+/"));
}

#[test]
fn source_of_a_subscription() {
    assert_eq!(
        subscription_source("file:///tmp/sub.txt"),
        SubscriptionSource::File("/tmp/sub.txt".to_string())
    );
    assert_eq!(subscription_source("file://"), SubscriptionSource::File(String::new()));
    assert_eq!(
        subscription_source("https://example.com/sub"),
        SubscriptionSource::Remote("https://example.com/sub".to_string())
    );
    assert_eq!(
        subscription_source("file:/x"),
        SubscriptionSource::Remote("file:/x".to_string())
    );
    assert_eq!(subscription_source(""), SubscriptionSource::Remote(String::new()));
    assert_eq!(
        subscription_source("FILE://x"),
        SubscriptionSource::Remote("FILE://x".to_string())
    );
}

#[test]
fn response_status() {
    assert_eq!(check_status(200), Ok(()));
    assert_eq!(check_status(204), Ok(()));
    assert_eq!(check_status(299), Ok(()));
    assert_eq!(check_status(199), Err(FetchError::Status(199)));
    assert_eq!(check_status(300), Err(FetchError::Status(300)));
    assert_eq!(check_status(404), Err(FetchError::Status(404)));
    assert_eq!(check_status(0), Err(FetchError::Status(0)));
}

#[test]
fn characters_and_back() {
    assert_eq!(chars_of("héllo"), chars("héllo"));
    assert_eq!(chars_of(""), Vec::<char>::new());
    assert_eq!(text_of_range(&chars("héllo wörld"), 1, 5), "éllo");
    assert_eq!(text_of_range(&chars("abc"), 3, 3), "");
    assert_eq!(text_of_range(&chars("abc"), 0, 3), "abc");
}

#[test]
fn same_text_compares_characters() {
    assert!(same_text("", ""));
    assert!(same_text("vmess", "vmess"));
    assert!(!same_text("vmess", "vmes"));
    assert!(!same_text("vmess", "vmesS"));
    assert!(same_text("é", "\u{e9}"));
    assert!(!same_text("e\u{301}", "\u{e9}"));
}

#[test]
fn white_space_is_the_unicode_property() {
    for code in 0u32..0x11000 {
        if let Some(c) = char::from_u32(code) {
            assert_eq!(is_space_char(c), c.is_whitespace(), "U+{:04X}", code);
        }
    }
}

#[test]
fn trimming() {
    let t = chars("  \t a b \r\n");
    assert_eq!(trim_bounds(&t, 0, t.len()), (4, 7));
    let all = chars(" \u{3000}\u{a0} ");
    let (a, b) = trim_bounds(&all, 0, all.len());
    assert_eq!(a, b);
    let t = chars("xx  ab  yy");
    assert_eq!(trim_bounds(&t, 2, 8), (4, 6));
    assert_eq!(trim_bounds(&t, 4, 6), (4, 6));
    assert_eq!(trim_bounds(&t, 5, 5), (5, 5));
    for s in ["", " ", "a", " a", "a ", "\u{2003}a\u{2003}b\u{85}", "\nx\n"] {
        let v = chars(s);
        let (a, b) = trim_bounds(&v, 0, v.len());
        assert_eq!(text_of_range(&v, a, b), s.trim());
    }
}

#[test]
fn finding_a_character() {
    let t = chars("ab\ncd\n");
    assert_eq!(find_from(&t, 0, '\n'), 2);
    assert_eq!(find_from(&t, 2, '\n'), 2);
    assert_eq!(find_from(&t, 3, '\n'), 5);
    assert_eq!(find_from(&t, 6, '\n'), 6);
    assert_eq!(find_from(&t, 0, 'z'), 6);
}

#[test]
fn port_numbers() {
    let p = |s: &str| parse_u16(&chars(s));
    for s in ["0", "1", "443", "65535", "+443", "0000000000000000000000443", "+0", "00"] {
        assert_eq!(p(s), s.parse::<u16>().ok(), "{}", s);
        assert!(p(s).is_some());
    }
    assert_eq!(p("443"), Some(443));
    assert_eq!(p("65535"), Some(65535));
    for s in [
        "", "+", "-1", "-0", "65536", "99999", "4294967296", "18446744073709551616", " 1", "1 ",
        "1.0", "0x10", "++1", "1+", "４４３", "1e3", "٣",
    ] {
        assert_eq!(p(s), None, "{}", s);
        assert_eq!(s.parse::<u16>().ok(), None);
    }
}

#[test]
fn decimal_digits_of_a_number() {
    for n in [0u64, 1, 9, 10, 11, 99, 100, 443, 65535, 1_000_000, u64::MAX] {
        let mut out = chars("p=");
        push_decimal(&mut out, n);
        assert_eq!(out.iter().collect::<String>(), format!("p={}", n));
    }
    let mut out = chars("a");
    push_text(&mut out, "bé");
    assert_eq!(out, chars("abé"));
    assert_eq!(DocValue::number(8080), DocValue::Number("8080".to_string()));
    assert_eq!(make_endpoint_label("h.example", 80), "h.example:80");
    assert_eq!(make_endpoint_label("", 0), ":0");
}

#[test]
fn document_lookups() {
    let doc = DocValue::Mapping(vec![
        (DocValue::text("a"), DocValue::text("1")),
        (DocValue::Number("7".to_string()), DocValue::text("seven")),
        (DocValue::text("b"), DocValue::Flag(true)),
        (DocValue::text("a"), DocValue::text("2")),
        (DocValue::text("empty"), DocValue::text("")),
        (DocValue::text("n"), DocValue::text("70000")),
    ]);
    assert_eq!(doc.get("a"), Some(&DocValue::text("1")));
    assert_eq!(doc.get("b"), Some(&DocValue::Flag(true)));
    assert_eq!(doc.get("7"), None);
    assert_eq!(doc.get("c"), None);
    assert_eq!(doc.get_text("a"), Some(&"1".to_string()));
    assert_eq!(doc.get_text("b"), None);
    assert_eq!(read_u16_field(&doc, "a", 9), 1);
    assert_eq!(read_u16_field(&doc, "b", 9), 9);
    assert_eq!(read_u16_field(&doc, "n", 9), 9);
    assert_eq!(read_u16_field(&doc, "missing", 9), 9);
    assert_eq!(read_non_empty_text(&doc, "a"), Some(&"1".to_string()));
    assert_eq!(read_non_empty_text(&doc, "empty"), None);
    assert_eq!(read_non_empty_text(&doc, "b"), None);
    assert_eq!(DocValue::List(vec![doc.duplicate()]).get("a"), None);
    assert_eq!(DocValue::Null.get("a"), None);
    assert_eq!(doc.duplicate(), doc);
    let nested = DocValue::Tagged(
        "!t".to_string(),
        Box::new(DocValue::List(vec![doc.duplicate(), DocValue::Null])),
    );
    assert_eq!(nested.duplicate(), nested);
    assert_eq!(
        DocValue::mapping_of(vec![(DocValue::text("k"), DocValue::Null)]),
        DocValue::Mapping(vec![(DocValue::Text("k".to_string()), DocValue::Null)])
    );
    assert_eq!(DocValue::list_of(vec![DocValue::Null]), DocValue::List(vec![DocValue::Null]));
}

#[test]
fn protocol_tags() {
    for tag in ["ss", "trojan", "vless", "vmess", "socks5", "hysteria2", "", "SS"] {
        assert_eq!(Protocol::from_tag(tag).tag(), tag);
    }
    assert_eq!(Protocol::from_tag("ss"), Protocol::Shadowsocks);
    assert_eq!(Protocol::from_tag("trojan"), Protocol::Trojan);
    assert_eq!(Protocol::from_tag("vless"), Protocol::Vless);
    assert_eq!(Protocol::from_tag("vmess"), Protocol::Vmess);
    assert_eq!(Protocol::from_tag("socks5"), Protocol::Socks5);
    assert_eq!(Protocol::from_tag("http"), Protocol::Other("http".to_string()));
}
