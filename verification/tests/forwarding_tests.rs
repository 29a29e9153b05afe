use stun::forwarding::ForwardingSpec;

#[test]
fn test_parse_three_part_spec() {
    let spec = ForwardingSpec::parse("8080:127.0.0.1:9000").unwrap();
    assert_eq!(spec.bind_address, None);
    assert_eq!(spec.bind_port, 8080);
    assert_eq!(spec.remote_host, "127.0.0.1");
    assert_eq!(spec.remote_port, 9000);
}

#[test]
fn test_parse_four_part_spec() {
    let spec = ForwardingSpec::parse("0.0.0.0:8080:192.168.1.10:9000").unwrap();
    assert_eq!(spec.bind_address, Some("0.0.0.0".to_string()));
    assert_eq!(spec.bind_port, 8080);
    assert_eq!(spec.remote_host, "192.168.1.10");
    assert_eq!(spec.remote_port, 9000);
}

#[test]
fn test_to_ssh_arg() {
    let spec1 = ForwardingSpec::parse("8080:127.0.0.1:9000").unwrap();
    assert_eq!(spec1.to_ssh_arg(), "8080:127.0.0.1:9000");

    let spec2 = ForwardingSpec::parse("0.0.0.0:8080:192.168.1.10:9000").unwrap();
    assert_eq!(spec2.to_ssh_arg(), "0.0.0.0:8080:192.168.1.10:9000");
}

#[test]
fn test_effective_bind_address() {
    let spec1 = ForwardingSpec::parse("8080:127.0.0.1:9000").unwrap();
    assert_eq!(spec1.effective_bind_address(), "127.0.0.1");

    let spec2 = ForwardingSpec::parse("0.0.0.0:8080:127.0.0.1:9000").unwrap();
    assert_eq!(spec2.effective_bind_address(), "0.0.0.0");
}

#[test]
fn test_invalid_specs() {
    assert!(ForwardingSpec::parse("invalid").is_err());
    assert!(ForwardingSpec::parse("8080:host").is_err());
    assert!(ForwardingSpec::parse("8080:host:port:extra:part").is_err());
    assert!(ForwardingSpec::parse("invalid_port:host:9000").is_err());
}

#[test]
fn test_parse_rejects_boundaries() {
    assert!(ForwardingSpec::parse("a:b:c:d:e").is_err());
    assert!(ForwardingSpec::parse("port:host:9000").is_err());
    assert!(ForwardingSpec::parse("8080::9000").is_err());
    assert!(ForwardingSpec::parse("8080:host:65536").is_err());
    assert!(ForwardingSpec::parse("").is_err());
    assert!(ForwardingSpec::parse(":").is_err());
}

#[test]
fn test_parse_bracketed_ipv6() {
    let spec = ForwardingSpec::parse("[::1]:80:localhost:80").unwrap();
    assert_eq!(spec.bind_address, Some("[::1]".to_string()));
    assert_eq!(spec.bind_port, 80);
    assert_eq!(spec.remote_host, "localhost");
    assert_eq!(spec.remote_port, 80);
}

#[test]
fn test_local_probe_address() {
    let spec = ForwardingSpec::parse("8080:127.0.0.1:9000").unwrap();
    assert_eq!(spec.local_probe_address(), "127.0.0.1:8080");

    let spec = ForwardingSpec::parse("0.0.0.0:8080:192.168.1.10:9000").unwrap();
    assert_eq!(spec.local_probe_address(), "0.0.0.0:8080");
}

#[test]
fn test_parse_round_trip_canonical() {
    for s in [
        "8080:127.0.0.1:9000",
        "0.0.0.0:8080:192.168.1.10:9000",
        "[::1]:80:localhost:80",
        "1:h:1",
        "65535:example.com:65535",
    ] {
        let spec = ForwardingSpec::parse(s).unwrap();
        assert_eq!(spec.to_ssh_arg(), s);
    }
}
