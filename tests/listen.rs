use std::str::FromStr;
use transparent_relay::addr::{Endpoint, Ipv4};
use transparent_relay::listen::{Listen, ListenError};

fn ep(a: u8, b: u8, c: u8, d: u8, port: u16) -> Endpoint {
    Endpoint { ip: Ipv4 { a, b, c, d }, port }
}

#[test]
fn parses_address_and_port() {
    assert_eq!(Listen::parse("10.0.0.1:8080"), Ok(Listen::Addr(ep(10, 0, 0, 1, 8080))));
    assert_eq!(Listen::parse("0.0.0.0:0"), Ok(Listen::Addr(ep(0, 0, 0, 0, 0))));
    assert_eq!(
        Listen::parse("255.255.255.255:65535"),
        Ok(Listen::Addr(ep(255, 255, 255, 255, 65535)))
    );
}

#[test]
fn port_of_address_may_have_leading_zeros() {
    assert_eq!(Listen::parse("1.2.3.4:0080"), Ok(Listen::Addr(ep(1, 2, 3, 4, 80))));
}

#[test]
fn rejects_malformed_addresses() {
    for s in [
        "01.2.3.4:5",
        "1.2.3:4",
        "1.2.3.4.5:6",
        "256.0.0.1:1",
        "1.2.3.4:65536",
        "1.2.3.4:",
        ":80",
        "1.2.3.4:80:81",
        "1.2.3.4:+80",
        "1..3.4:80",
        "1234.1.1.1:80",
        "a.b.c.d:80",
        "localhost:80",
    ] {
        assert_eq!(Listen::parse(s), Err(ListenError::BadAddress), "{}", s);
    }
}

#[test]
fn parses_bare_port() {
    assert_eq!(Listen::parse("8080"), Ok(Listen::Port(8080)));
    assert_eq!(Listen::parse("+80"), Ok(Listen::Port(80)));
    assert_eq!(Listen::parse("65535"), Ok(Listen::Port(65535)));
    assert_eq!(Listen::parse("0"), Ok(Listen::Port(0)));
    assert_eq!(Listen::parse("007"), Ok(Listen::Port(7)));
}

#[test]
fn rejects_malformed_ports() {
    for s in ["", "65536", "99999999999", "abc", "-1", "+", "8 0", "1.2.3.4"] {
        assert_eq!(Listen::parse(s), Err(ListenError::BadPort), "{}", s);
    }
}

#[test]
fn from_str_agrees_with_parse() {
    assert_eq!(Listen::from_str("127.0.0.1:1080"), Ok(Listen::Addr(ep(127, 0, 0, 1, 1080))));
    assert_eq!(Listen::from_str("x"), Err(ListenError::BadPort));
}

#[test]
fn port_alone_binds_loopback() {
    assert_eq!(Listen::Port(9000).bind_address(), ep(127, 0, 0, 1, 9000));
    assert_eq!(Listen::Addr(ep(0, 0, 0, 0, 53)).bind_address(), ep(0, 0, 0, 0, 53));
    assert_eq!(Ipv4::localhost(), Ipv4 { a: 127, b: 0, c: 0, d: 1 });
}

#[test]
fn rejects_other_forms() {
    assert_eq!(Listen::from_str("65536"), Err(ListenError::BadPort));
    assert_eq!(Listen::from_str("[::1]:80"), Err(ListenError::BadAddress));
    assert_eq!(Listen::from_str("10.0.0.1"), Err(ListenError::BadPort));
    assert_eq!(Listen::from_str("localhost:80"), Err(ListenError::BadAddress));
    assert_eq!(Listen::from_str(""), Err(ListenError::BadPort));
    assert_eq!(Listen::from_str("8080"), Ok(Listen::Port(8080)));
}

#[test]
fn rendered_targets_read_back() {
    for p in [0u16, 7, 10, 99, 100, 255, 1000, 8080, 65535] {
        assert_eq!(Listen::from_str(&p.to_string()), Ok(Listen::Port(p)));
    }
    for (a, b, c, d, port) in [
        (0u8, 0u8, 0u8, 0u8, 0u16),
        (127, 0, 0, 1, 8080),
        (10, 20, 100, 255, 65535),
        (9, 99, 199, 250, 443),
    ] {
        let text = format!("{}.{}.{}.{}:{}", a, b, c, d, port);
        assert_eq!(Listen::from_str(&text), Ok(Listen::Addr(ep(a, b, c, d, port))));
    }
}
