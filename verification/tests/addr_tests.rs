use dns_test::Error;
use dns_test::addr::{Ipv4Addr, ipv4_string, parse_ipv4, resolve_address};

#[test]
fn parses_ordinary_addresses() {
    assert_eq!(
        parse_ipv4("192.168.1.1"),
        Some(Ipv4Addr { o0: 192, o1: 168, o2: 1, o3: 1 })
    );
    assert_eq!(parse_ipv4("0.0.0.0"), Some(Ipv4Addr { o0: 0, o1: 0, o2: 0, o3: 0 }));
    assert_eq!(
        parse_ipv4("255.255.255.255"),
        Some(Ipv4Addr { o0: 255, o1: 255, o2: 255, o3: 255 })
    );
    assert_eq!(parse_ipv4("172.17.0.2"), Some(Ipv4Addr { o0: 172, o1: 17, o2: 0, o3: 2 }));
}

#[test]
fn rejects_malformed_addresses() {
    assert_eq!(parse_ipv4(""), None);
    assert_eq!(parse_ipv4("1.2.3"), None);
    assert_eq!(parse_ipv4("1.2.3.4.5"), None);
    assert_eq!(parse_ipv4("1.2.3.256"), None);
    assert_eq!(parse_ipv4("01.2.3.4"), None);
    assert_eq!(parse_ipv4("1.2.3."), None);
    assert_eq!(parse_ipv4(".1.2.3"), None);
    assert_eq!(parse_ipv4("1..2.3"), None);
    assert_eq!(parse_ipv4("a.b.c.d"), None);
    assert_eq!(parse_ipv4("1.2.3.4 "), None);
    assert_eq!(parse_ipv4("1234.5.6.7"), None);
    assert_eq!(parse_ipv4("-1.2.3.4"), None);
}

#[test]
fn rendering_and_parsing_round_trip() {
    let samples = [
        Ipv4Addr { o0: 0, o1: 0, o2: 0, o3: 0 },
        Ipv4Addr { o0: 172, o1: 17, o2: 0, o3: 2 },
        Ipv4Addr { o0: 255, o1: 255, o2: 255, o3: 255 },
        Ipv4Addr { o0: 8, o1: 8, o2: 8, o3: 8 },
    ];
    for a in samples {
        let text = ipv4_string(&a);
        assert_eq!(parse_ipv4(&text), Some(a));
    }
    assert_eq!(ipv4_string(&Ipv4Addr { o0: 172, o1: 17, o2: 0, o3: 2 }), "172.17.0.2");
}

#[test]
fn ping_command_names_the_cached_address() {
    let internals = dns_test::sandbox::SandboxInternals::new(
        "c0ffee".to_string(),
        "dns-test-unbound-42-0".to_string(),
        Ipv4Addr { o0: 172, o1: 17, o2: 0, o3: 2 },
    );
    let addr_text = ipv4_string(&internals.ipv4_addr());
    let cmd: Vec<String> = vec!["ping".to_string(), "-c1".to_string(), addr_text.clone()];
    let argv = internals.exec_args(&cmd);
    assert_eq!(
        argv,
        vec![
            "docker".to_string(),
            "exec".to_string(),
            "-t".to_string(),
            "c0ffee".to_string(),
            "ping".to_string(),
            "-c1".to_string(),
            "172.17.0.2".to_string(),
        ]
    );
    assert_eq!(parse_ipv4(&addr_text), Some(internals.ipv4_addr()));
}

#[test]
fn resolve_address_reads_engine_output() {
    let a = resolve_address(b"  172.17.0.2\n".to_vec()).unwrap();
    assert_eq!(a, Ipv4Addr { o0: 172, o1: 17, o2: 0, o3: 2 });
}

#[test]
fn resolve_address_reports_encoding_errors() {
    let r = resolve_address(vec![0xff, 0xfe]);
    assert!(matches!(r, Err(Error::Encoding)));
}

#[test]
fn resolve_address_reports_parse_errors() {
    let r = resolve_address(b"no address here\n".to_vec());
    assert!(matches!(r, Err(Error::AddressParse)));
}
