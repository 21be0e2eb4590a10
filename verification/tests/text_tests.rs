use rs_proxy::addr::{parse_socket_addr, Ipv4Address, SocketAddressV4};

#[test]
fn host_text_is_dotted_decimal() {
    let a = Ipv4Address { o0: 127, o1: 0, o2: 0, o3: 1 };
    assert_eq!(a.to_text(), "127.0.0.1");
    let b = Ipv4Address { o0: 0, o1: 0, o2: 0, o3: 0 };
    assert_eq!(b.to_text(), "0.0.0.0");
    let c = Ipv4Address { o0: 255, o1: 255, o2: 255, o3: 255 };
    assert_eq!(c.to_text(), "255.255.255.255");
    let d = Ipv4Address { o0: 10, o1: 20, o2: 30, o3: 40 };
    assert_eq!(d.to_text(), "10.20.30.40");
}

#[test]
fn socket_text_is_host_colon_port() {
    let s = SocketAddressV4 { ip: Ipv4Address { o0: 127, o1: 0, o2: 0, o3: 1 }, port: 1883 };
    assert_eq!(s.to_text(), "127.0.0.1:1883");
    let w = SocketAddressV4::wildcard(21883);
    assert_eq!(w.to_text(), "0.0.0.0:21883");
    let z = SocketAddressV4 { ip: Ipv4Address { o0: 1, o1: 2, o2: 3, o3: 4 }, port: 0 };
    assert_eq!(z.to_text(), "1.2.3.4:0");
    let m = SocketAddressV4 { ip: Ipv4Address { o0: 9, o1: 9, o2: 9, o3: 9 }, port: 65535 };
    assert_eq!(m.to_text(), "9.9.9.9:65535");
}

#[test]
fn rendered_address_parses_back() {
    let cases = vec![
        SocketAddressV4 { ip: Ipv4Address { o0: 127, o1: 0, o2: 0, o3: 1 }, port: 1883 },
        SocketAddressV4 { ip: Ipv4Address { o0: 0, o1: 0, o2: 0, o3: 0 }, port: 0 },
        SocketAddressV4 { ip: Ipv4Address { o0: 255, o1: 255, o2: 255, o3: 255 }, port: 65535 },
        SocketAddressV4 { ip: Ipv4Address { o0: 192, o1: 168, o2: 1, o3: 7 }, port: 8080 },
    ];
    for sa in cases {
        let text = sa.to_text();
        assert_eq!(parse_socket_addr(text.as_str()), Some(sa));
    }
}
