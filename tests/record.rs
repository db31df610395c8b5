use medusa::config::{Config, ConfigValue, Records, Service};
use medusa::engine::fields_of;
use medusa::net::{IpAddress, PeerAddress};
use medusa::services::service_name;
use medusa::record::{for_address, Data, Entry, Payload, Record, Timestamp};

fn record() -> Record {
    let peer = PeerAddress { ip: IpAddress::V4(0x0a00_0001), port: 4242 };
    for_address("tcp", "svc", &peer)
}

#[test]
fn adjacent_raw_entries_are_joined() {
    let mut r = record();
    r.raw(b"AB".to_vec());
    r.raw(b"CD".to_vec());
    r.compact();
    assert_eq!(r.size(), 1);
    match &r.entries[0].data {
        Data::Raw(b) => assert_eq!(b, &b"ABCD".to_vec()),
        _ => panic!("expected a raw entry"),
    }
}

#[test]
fn raw_entries_apart_are_kept_apart() {
    let mut r = record();
    r.raw(b"A".to_vec());
    r.log("note".to_string());
    r.raw(b"B".to_vec());
    r.raw(b"C".to_vec());
    r.raw(b"D".to_vec());
    r.compact();
    assert_eq!(r.size(), 3);
    assert!(matches!(&r.entries[2].data, Data::Raw(b) if b == &b"BCD".to_vec()));
}

#[test]
fn record_header_comes_from_peer() {
    let r = record();
    assert_eq!(r.address, "10.0.0.1");
    assert_eq!(r.port, 4242);
    assert_eq!(r.protocol, "tcp");
    assert_eq!(r.service, "svc");
    assert_eq!(r.size(), 0);
}

#[test]
fn record_path_layout() {
    let mut r = record();
    r.created_at = Timestamp { secs: 0, nanos: 0 };
    assert_eq!(r.path("records").unwrap(), "records/10.0.0.1/svc/1970-01-01T00:00:00+00:00.json");
    assert_eq!(r.path("records/").unwrap(), "records/10.0.0.1/svc/1970-01-01T00:00:00+00:00.json");
    r.created_at = Timestamp { secs: 86400, nanos: 500_000_000 };
    assert_eq!(r.path("").unwrap(), "10.0.0.1/svc/1970-01-02T00:00:00.500+00:00.json");
    r.created_at = Timestamp { secs: i64::MAX, nanos: 0 };
    assert!(r.path("records").is_none());
}

#[test]
fn entries_store_scalars_with_type_tags() {
    let mut r = record();
    r.auth("root".to_string(), Some("toor".to_string()), None);
    r.auth("admin".to_string(), None, Some("SHA256:abc".to_string()));
    r.command("ls".to_string());
    r.request("GET /".to_string());
    r.log("connected".to_string());
    r.raw(vec![0, 255]);
    let kinds: Vec<&str> = r.entries.iter().map(|e| e.data.kind()).collect();
    assert_eq!(kinds, vec!["auth", "auth", "command", "request", "log", "raw"]);
    assert!(matches!(r.entries[0].data.payload(), Payload::Text(t) if t == "username:root password:toor"));
    assert!(matches!(r.entries[1].data.payload(), Payload::Text(t) if t == "username:admin key:SHA256:abc"));
    assert!(matches!(r.entries[5].data.payload(), Payload::Bytes(b) if b == vec![0u8, 255u8]));
    let e = Entry::new(Data::Log("x".to_string()));
    assert!(matches!(e.data, Data::Log(ref s) if s == "x"));
}

#[test]
fn ipv6_text_forms() {
    assert_eq!(IpAddress::V6(1).to_text(), "::1");
    assert_eq!(IpAddress::V6(0).to_text(), "::");
    assert_eq!(IpAddress::V6(0xffff_0102_0304).to_text(), "::ffff:1.2.3.4");
    assert_eq!(IpAddress::V6(0x2001_0db8_0000_0000_0000_0000_0000_0001).to_text(), "2001:db8::1");
    assert_eq!(IpAddress::V6(0x0001_0000_0001_0000_0001_0000_0001_0000).to_text(), "1:0:1:0:1:0:1:0");
    assert_eq!(IpAddress::V6(0x0001_0000_0000_0001_0000_0000_0000_0001).to_text(), "1:0:0:1::1");
    assert_eq!(IpAddress::V4(0xc0a8_0001).to_text(), "192.168.0.1");
}

#[test]
fn empty_allow_list_admits_everyone() {
    let c = Config::new();
    assert!(c.is_allowed_ip(&IpAddress::V4(0x0102_0304)));
    assert!(c.is_allowed_ip(&IpAddress::V6(1)));
    assert_eq!(c.records.path, "");
    assert_eq!(Records::new().path, "");
}

#[test]
fn allow_list_admits_only_listed_peers() {
    let mut c = Config::new();
    c.only = vec![IpAddress::V4(0x0102_0304), IpAddress::V6(1)];
    assert!(c.is_allowed_ip(&IpAddress::V4(0x0102_0304)));
    assert!(c.is_allowed_ip(&IpAddress::V6(1)));
    assert!(!c.is_allowed_ip(&IpAddress::V4(0x0102_0305)));
    assert!(!c.is_allowed_ip(&IpAddress::V6(0x0102_0304)));
}

#[test]
fn typed_options_fall_back_to_defaults() {
    let svc = Service {
        proto: "http".to_string(),
        address: "0.0.0.0:80".to_string(),
        commands: vec![],
        config: vec![
            ("banner".to_string(), ConfigValue::Str("hello".to_string())),
            ("tls".to_string(), ConfigValue::Bool(true)),
            ("timeout".to_string(), ConfigValue::Unsigned(3)),
            ("headers".to_string(), ConfigValue::Strings(vec!["A: b".to_string()])),
            ("odd".to_string(), ConfigValue::Other),
        ],
    };
    assert_eq!(svc.string("banner", "x"), "hello");
    assert_eq!(svc.string("tls", "x"), "x");
    assert_eq!(svc.string("missing", "dflt"), "dflt");
    assert!(svc.bool("tls", false));
    assert!(!svc.bool("banner", false));
    assert_eq!(svc.unsigned("timeout", 10), 3);
    assert_eq!(svc.unsigned("odd", 10), 10);
    assert_eq!(svc.strings("headers", vec![]), vec!["A: b".to_string()]);
    assert_eq!(svc.strings("odd", vec!["d".to_string()]), vec!["d".to_string()]);
}

#[test]
fn service_names_follow_the_file_layout() {
    assert_eq!(service_name("/srv/services.d/ssh/main.yml", "/srv/services.d"), "ssh-main");
    assert_eq!(service_name("/srv/services.d//web.yml.yml", "/srv/services.d"), "web");
    assert_eq!(service_name("relative/a.yml", ""), "relative-a");
    assert_eq!(service_name("/x/tcp.yaml", "/x"), "tcp.yaml");
}

#[test]
fn allow_list_fields_are_trimmed() {
    assert_eq!(fields_of(" 1.2.3.4, ,::1,", ','), vec!["1.2.3.4".to_string(), "::1".to_string()]);
    assert!(fields_of("", ',').is_empty());
}
