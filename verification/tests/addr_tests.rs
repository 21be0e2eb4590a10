use rs_proxy::addr::{parse_ipv4, parse_octet, parse_port, parse_socket_addr, SocketAddressV4};

#[test]
fn octet_plain_values() {
    assert_eq!(parse_octet("0"), Some(0));
    assert_eq!(parse_octet("7"), Some(7));
    assert_eq!(parse_octet("10"), Some(10));
    assert_eq!(parse_octet("255"), Some(255));
}

#[test]
fn octet_rejects_out_of_range() {
    assert_eq!(parse_octet("256"), None);
    assert_eq!(parse_octet("999"), None);
    assert_eq!(parse_octet("1000"), None);
}

#[test]
fn octet_rejects_leading_zero() {
    assert_eq!(parse_octet("00"), None);
    assert_eq!(parse_octet("01"), None);
    assert_eq!(parse_octet("007"), None);
}

#[test]
fn octet_rejects_non_digits() {
    assert_eq!(parse_octet(""), None);
    assert_eq!(parse_octet("1a"), None);
    assert_eq!(parse_octet("-1"), None);
    assert_eq!(parse_octet(" 1"), None);
}

#[test]
fn port_plain_values() {
    assert_eq!(parse_port("0"), Some(0));
    assert_eq!(parse_port("1883"), Some(1883));
    assert_eq!(parse_port("65535"), Some(65535));
}

#[test]
fn port_allows_leading_zeros() {
    assert_eq!(parse_port("00080"), Some(80));
}

#[test]
fn port_rejects_bad_numerals() {
    assert_eq!(parse_port(""), None);
    assert_eq!(parse_port("65536"), None);
    assert_eq!(parse_port("123456"), None);
    assert_eq!(parse_port("8 0"), None);
    assert_eq!(parse_port("+80"), None);
}

#[test]
fn ipv4_well_formed() {
    let a = parse_ipv4("127.0.0.1").unwrap();
    assert_eq!((a.o0, a.o1, a.o2, a.o3), (127, 0, 0, 1));
    let b = parse_ipv4("255.255.255.255").unwrap();
    assert_eq!((b.o0, b.o1, b.o2, b.o3), (255, 255, 255, 255));
    let c = parse_ipv4("0.0.0.0").unwrap();
    assert_eq!((c.o0, c.o1, c.o2, c.o3), (0, 0, 0, 0));
}

#[test]
fn ipv4_malformed() {
    assert_eq!(parse_ipv4("256.1.1.1"), None);
    assert_eq!(parse_ipv4("01.2.3.4"), None);
    assert_eq!(parse_ipv4("1.2.3"), None);
    assert_eq!(parse_ipv4("1.2.3.4.5"), None);
    assert_eq!(parse_ipv4("1..2.3"), None);
    assert_eq!(parse_ipv4(""), None);
    assert_eq!(parse_ipv4("a.b.c.d"), None);
}

#[test]
fn socket_addr_well_formed() {
    let s = parse_socket_addr("127.0.0.1:1883").unwrap();
    assert_eq!((s.ip.o0, s.ip.o1, s.ip.o2, s.ip.o3), (127, 0, 0, 1));
    assert_eq!(s.port, 1883);
    let t = parse_socket_addr("10.0.0.1:65535").unwrap();
    assert_eq!(t.port, 65535);
    assert_eq!(parse_socket_addr("1.2.3.4:0").unwrap().port, 0);
}

#[test]
fn socket_addr_malformed() {
    assert_eq!(parse_socket_addr("127.0.0.1"), None);
    assert_eq!(parse_socket_addr(":80"), None);
    assert_eq!(parse_socket_addr("1.2.3.4:"), None);
    assert_eq!(parse_socket_addr("1.2.3.4:65536"), None);
    assert_eq!(parse_socket_addr("1.2.3.4:80:90"), None);
    assert_eq!(parse_socket_addr("not-an-address"), None);
}

#[test]
fn wildcard_listen_address() {
    let w = SocketAddressV4::wildcard(21883);
    assert_eq!((w.ip.o0, w.ip.o1, w.ip.o2, w.ip.o3), (0, 0, 0, 0));
    assert_eq!(w.port, 21883);
}
