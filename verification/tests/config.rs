use apprecon_collaborator::config::{BindConfig, DnsConfig, TlsConfig};

#[test]
fn addresses_are_host_colon_port() {
    let b = BindConfig { host: "127.0.0.1".into(), port: 8080 };
    assert_eq!(b.address(), "127.0.0.1:8080");
    let d = DnsConfig { host: "0.0.0.0".into(), udp_port: 53, tcp_port: 1053 };
    assert_eq!(d.udp_address(), "0.0.0.0:53");
    assert_eq!(d.tcp_address(), "0.0.0.0:1053");
    let b = BindConfig { host: "h".into(), port: 0 };
    assert_eq!(b.address(), "h:0");
}

#[test]
fn tls_address_only_when_enabled() {
    let t = TlsConfig {
        enabled: true,
        host: "0.0.0.0".into(),
        port: 8443,
        cert: "/certs/fullchain.pem".into(),
        key: "/certs/privkey.pem".into(),
    };
    assert_eq!(t.address().as_deref(), Some("0.0.0.0:8443"));
    let t = TlsConfig { enabled: false, ..t };
    assert_eq!(t.address(), None);
}
