use companion::address::{
    notation_text, parse_ip_from_base_url, select_preferred_ip, IpAddress,
};
use companion::mdns_discovery::{
    describe_server, failure_message, is_time_left, read_txt, DiscoveredServer, Discovery,
    DiscoveryEvent, DiscoveryFailure, ServiceRecord, ServiceTxt, MA_SERVICE_TYPE,
};

fn v4(a: u8, b: u8, c: u8, d: u8) -> IpAddress {
    IpAddress::V4(a, b, c, d)
}

fn no_txt() -> ServiceTxt {
    ServiceTxt {
        server_id: None,
        id: None,
        base_url: None,
        https: None,
    }
}

fn record(fullname: &str, txt: ServiceTxt, addresses: Vec<IpAddress>) -> ServiceRecord {
    ServiceRecord {
        fullname: fullname.to_string(),
        txt,
        port: 8095,
        addresses,
    }
}

fn some(s: &str) -> Option<String> {
    Some(s.to_string())
}

#[test]
fn test_parse_ip_from_base_url() {
    let cases: Vec<(&str, Option<IpAddress>)> = vec![
        ("http://192.168.1.47:8095", Some(v4(192, 168, 1, 47))),
        ("https://10.0.0.1:443", Some(v4(10, 0, 0, 1))),
        ("192.168.1.100:8095", Some(v4(192, 168, 1, 100))),
        ("http://[::1]:8095", None),
        ("http://not_an_ip:8095", None),
        ("", None),
        ("http://", None),
    ];
    for (input, expected) in cases {
        assert_eq!(parse_ip_from_base_url(input), expected, "input: {input}");
    }
}

#[test]
fn only_plain_dotted_addresses_are_read() {
    let accepted: Vec<(&str, IpAddress)> = vec![
        ("0.0.0.0", v4(0, 0, 0, 0)),
        ("255.255.255.255:1", v4(255, 255, 255, 255)),
        ("http://1.2.3.4", v4(1, 2, 3, 4)),
        ("https://http://9.10.99.100:", v4(9, 10, 99, 100)),
        ("1.2http://.3.4", v4(1, 2, 3, 4)),
        ("hthttp://tps://5.6.7.8", v4(5, 6, 7, 8)),
    ];
    for (input, expected) in accepted {
        assert_eq!(parse_ip_from_base_url(input), Some(expected), "input: {input}");
    }
    let refused = [
        "256.1.1.1", "1.2.3", "1.2.3.4.5", "01.2.3.4", "1.2.3.04", "1.2.3.", ".1.2.3", "1..2.3",
        "1.2.3.4/", "1.2.3.4 ", "+1.2.3.4", "1.2.3.0x1", "1234.1.1.1", "1.2.3.999", ":1.2.3.4",
        "http//1.2.3.4", "\u{661}.2.3.4", "00.0.0.0", "1.2.3.-4",
    ];
    for input in refused {
        assert_eq!(parse_ip_from_base_url(input), None, "input: {input}");
    }
}

#[test]
fn every_octet_is_read_back() {
    for n in 0..=255u8 {
        let ip = v4(n, 255 - n, n / 2, 7);
        let url = format!("https://{}:80", notation_text(&ip));
        assert_eq!(notation_text(&ip), format!("{}.{}.{}.7", n, 255 - n, n / 2));
        assert_eq!(parse_ip_from_base_url(&url), Some(ip));
    }
}

#[test]
fn test_select_preferred_ip() {
    let v6_loopback = IpAddress::V6("::1".to_string());

    // The announced address takes precedence over the others
    assert_eq!(
        select_preferred_ip(Some(v4(192, 168, 1, 1)), &[v4(10, 0, 0, 1)]),
        Some(v4(192, 168, 1, 1))
    );
    // IPv4 preferred over IPv6
    assert_eq!(
        select_preferred_ip(None, &[v6_loopback.clone(), v4(192, 168, 1, 1)]),
        Some(v4(192, 168, 1, 1))
    );
    // Falls back to IPv6 when no IPv4 available
    assert_eq!(
        select_preferred_ip(None, &[v6_loopback.clone()]),
        Some(v6_loopback)
    );
    // Nothing announced and no addresses
    assert_eq!(select_preferred_ip(None, &[]), None);
    // Multiple IPv4: the first
    assert_eq!(
        select_preferred_ip(None, &[v4(192, 168, 1, 1), v4(10, 0, 0, 1)]),
        Some(v4(192, 168, 1, 1))
    );
}

#[test]
fn txt_record_is_read_whatever_the_case_of_its_keys() {
    let properties = [
        ("Server_ID", "abc"),
        ("base_url", "http://10.0.0.9:8095"),
        ("HTTPS", "1"),
        ("server_id", "second"),
        ("other", "x"),
    ];
    let info = mdns_sd::ServiceInfo::new(
        MA_SERVICE_TYPE,
        "Living Room",
        "host.local.",
        "192.168.1.5",
        8095,
        &properties[..],
    )
    .unwrap();
    let txt = read_txt(info.get_properties());
    assert_eq!(txt.server_id, some("abc"));
    assert_eq!(txt.id, None);
    assert_eq!(txt.base_url, some("http://10.0.0.9:8095"));
    assert_eq!(txt.https, some("1"));
    let found = describe_server(&record(info.get_fullname(), txt, vec![])).unwrap();
    assert_eq!(found.key, "abc");
    assert_eq!(found.server.name, "Living Room");
    assert_eq!(found.server.url, "https://10.0.0.9:8095");
}

#[test]
fn empty_txt_record_says_nothing() {
    let none: [(&str, &str); 0] = [];
    let info = mdns_sd::ServiceInfo::new(
        MA_SERVICE_TYPE,
        "x",
        "host.local.",
        "192.168.1.5",
        1,
        &none[..],
    )
    .unwrap();
    assert_eq!(read_txt(info.get_properties()), no_txt());
}

#[test]
fn server_is_described_in_full() {
    let txt = ServiceTxt {
        server_id: None,
        id: some("id-1"),
        base_url: None,
        https: some("false"),
    };
    let found = describe_server(&record(
        "Kitchen._mass._tcp.local.",
        txt,
        vec![IpAddress::V6("fe80::1".to_string()), v4(192, 168, 1, 9)],
    ))
    .unwrap();
    assert_eq!(found.key, "id-1");
    assert_eq!(
        found.server,
        DiscoveredServer {
            name: "Kitchen".to_string(),
            server_id: some("id-1"),
            address: "192.168.1.9:8095".to_string(),
            url: "http://192.168.1.9:8095".to_string(),
            https: false,
        }
    );
}

#[test]
fn server_without_id_is_known_by_its_full_name() {
    let found = describe_server(&record(
        "Attic._mass._tcp._mass._tcp.local..local.",
        no_txt(),
        vec![IpAddress::V6("::1".to_string())],
    ))
    .unwrap();
    assert_eq!(found.key, "Attic._mass._tcp._mass._tcp.local..local.");
    assert_eq!(found.server.name, "Attic");
    assert_eq!(found.server.server_id, None);
    assert_eq!(found.server.address, "::1:8095");
    assert_eq!(found.server.url, "http://::1:8095");
}

#[test]
fn unreadable_base_url_falls_back_to_the_addresses() {
    let mut txt = no_txt();
    txt.base_url = some("http://music.local:8095");
    txt.https = some("true");
    let found = describe_server(&record("a", txt, vec![v4(10, 0, 0, 1)])).unwrap();
    assert_eq!(found.server.url, "https://10.0.0.1:8095");
}

#[test]
fn server_without_an_address_is_not_found() {
    assert_eq!(describe_server(&record("a", no_txt(), vec![])), None);
}

#[test]
fn first_announcement_of_a_server_is_kept() {
    let announce = |name: &str, id: Option<&str>, last: u8| {
        let mut txt = no_txt();
        txt.id = id.map(|s| s.to_string());
        DiscoveryEvent::Resolved(record(name, txt, vec![v4(10, 0, 0, last)]))
    };
    let mut discovery = Discovery::new();
    assert!(discovery.observe(DiscoveryEvent::Timeout));
    assert!(discovery.observe(announce("b", Some("1"), 1)));
    assert!(discovery.observe(DiscoveryEvent::Other));
    assert!(discovery.observe(announce("a", None, 2)));
    assert!(discovery.observe(announce("c", Some("1"), 3)));
    assert!(discovery.observe(announce("d", Some("a"), 4)));
    assert!(discovery.observe(DiscoveryEvent::Resolved(record("e", no_txt(), vec![]))));
    assert!(discovery.observe(announce("f", Some("2"), 5)));
    assert!(!discovery.observe(DiscoveryEvent::Disconnected));
    let found: Vec<(String, String)> = discovery
        .into_servers()
        .into_iter()
        .map(|s| (s.name, s.address))
        .collect();
    assert_eq!(
        found,
        vec![
            ("b".to_string(), "10.0.0.1:8095".to_string()),
            ("a".to_string(), "10.0.0.2:8095".to_string()),
            ("f".to_string(), "10.0.0.5:8095".to_string()),
        ]
    );
}

#[test]
fn time_runs_out_at_the_deadline() {
    assert!(is_time_left(0, 1));
    assert!(is_time_left(999_999_999, 1));
    assert!(!is_time_left(1_000_000_000, 1));
    assert!(!is_time_left(0, 0));
    assert!(is_time_left(u64::MAX as u128, u64::MAX));
}

#[test]
fn discovery_failures_are_put_into_words() {
    assert_eq!(
        failure_message(&DiscoveryFailure::Daemon("no socket".to_string())),
        "Failed to create mDNS daemon: no socket"
    );
    assert_eq!(
        failure_message(&DiscoveryFailure::Browse("bad type".to_string())),
        "Failed to browse mDNS: bad type"
    );
    assert_eq!(failure_message(&DiscoveryFailure::Lock), "Failed to lock servers");
}
