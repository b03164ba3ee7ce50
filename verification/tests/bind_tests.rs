use cors_proxy::bind::{default_addr, parse_ipv4, parse_ipv6, parse_port, to_socket_addr, BindAddr, Ip, DEFAULT_PORT};

#[test]
fn default_is_all_interfaces_1080() {
    assert_eq!(default_addr(), BindAddr { ip: Ip::V4(0, 0, 0, 0), port: 1080 });
    assert_eq!(DEFAULT_PORT, 1080);
}

#[test]
fn combined_ipv4_and_port() {
    assert_eq!(
        to_socket_addr("1.2.3.4:80"),
        Some(BindAddr { ip: Ip::V4(1, 2, 3, 4), port: 80 })
    );
    assert_eq!(
        to_socket_addr("0.0.0.0:0"),
        Some(BindAddr { ip: Ip::V4(0, 0, 0, 0), port: 0 })
    );
}

#[test]
fn combined_ipv6_and_port() {
    assert_eq!(
        to_socket_addr("[::1]:9000"),
        Some(BindAddr { ip: Ip::V6(0, 0, 0, 0, 0, 0, 0, 1), port: 9000 })
    );
    assert_eq!(
        to_socket_addr("[2001:db8::8:800:200c:417a]:1"),
        Some(BindAddr {
            ip: Ip::V6(0x2001, 0xdb8, 0, 0, 0x8, 0x800, 0x200c, 0x417a),
            port: 1
        })
    );
}

#[test]
fn address_alone_gets_default_port() {
    assert_eq!(
        to_socket_addr("127.0.0.1"),
        Some(BindAddr { ip: Ip::V4(127, 0, 0, 1), port: 1080 })
    );
    assert_eq!(
        to_socket_addr("::"),
        Some(BindAddr { ip: Ip::V6(0, 0, 0, 0, 0, 0, 0, 0), port: 1080 })
    );
}

#[test]
fn port_alone_gets_default_address() {
    assert_eq!(to_socket_addr("8080"), Some(BindAddr { ip: Ip::V4(0, 0, 0, 0), port: 8080 }));
    assert_eq!(to_socket_addr("+80"), Some(BindAddr { ip: Ip::V4(0, 0, 0, 0), port: 80 }));
    assert_eq!(to_socket_addr("65535"), Some(BindAddr { ip: Ip::V4(0, 0, 0, 0), port: 65535 }));
}

#[test]
fn rejects_what_names_nothing() {
    assert_eq!(to_socket_addr(""), None);
    assert_eq!(to_socket_addr("65536"), None);
    assert_eq!(to_socket_addr("not an address"), None);
    assert_eq!(to_socket_addr("256.1.1.1"), None);
    assert_eq!(to_socket_addr("1.2.3"), None);
    assert_eq!(to_socket_addr("1.2.3.4.5"), None);
    assert_eq!(to_socket_addr("1.2.3.4:"), None);
    assert_eq!(to_socket_addr(":80"), None);
    assert_eq!(to_socket_addr("[::1]"), None);
    assert_eq!(to_socket_addr("[::1]:"), None);
}

#[test]
fn unbracketed_ipv6_with_trailing_group_is_an_address_not_a_port() {
    // `1::2:80` is a well-formed IPv6 address, so the `80` is a group of it,
    // not a port; a port after an IPv6 address needs the bracketed form.
    assert_eq!(
        to_socket_addr("1::2:80"),
        Some(BindAddr { ip: Ip::V6(1, 0, 0, 0, 0, 0, 2, 0x80), port: 1080 })
    );
}

#[test]
fn ipv4_grammar_is_strict() {
    assert_eq!(parse_ipv4("192.168.0.1"), Some(Ip::V4(192, 168, 0, 1)));
    assert_eq!(parse_ipv4("255.255.255.255"), Some(Ip::V4(255, 255, 255, 255)));
    assert_eq!(parse_ipv4("01.2.3.4"), None);
    assert_eq!(parse_ipv4("1.2.3.04"), None);
    assert_eq!(parse_ipv4("1.2.3.256"), None);
    assert_eq!(parse_ipv4("1.2.3."), None);
    assert_eq!(parse_ipv4("1.2.3.4x"), None);
}

#[test]
fn ipv6_grammar_accepts_compression() {
    assert_eq!(
        parse_ipv6("1:2:3:4:5:6:7:8"),
        Some(Ip::V6(1, 2, 3, 4, 5, 6, 7, 8))
    );
    assert_eq!(parse_ipv6("::"), Some(Ip::V6(0, 0, 0, 0, 0, 0, 0, 0)));
    assert_eq!(parse_ipv6("::1"), Some(Ip::V6(0, 0, 0, 0, 0, 0, 0, 1)));
    assert_eq!(parse_ipv6("1::"), Some(Ip::V6(1, 0, 0, 0, 0, 0, 0, 0)));
    assert_eq!(
        parse_ipv6("fe80::aBcD"),
        Some(Ip::V6(0xfe80, 0, 0, 0, 0, 0, 0, 0xabcd))
    );
    assert_eq!(
        parse_ipv6("1:2:3:4:5:6:7::"),
        Some(Ip::V6(1, 2, 3, 4, 5, 6, 7, 0))
    );
}

#[test]
fn ipv6_grammar_accepts_embedded_ipv4() {
    assert_eq!(
        parse_ipv6("::ffff:192.168.1.1"),
        Some(Ip::V6(0, 0, 0, 0, 0, 0xffff, 0xc0a8, 0x0101))
    );
    assert_eq!(
        parse_ipv6("1:2:3:4:5:6:1.2.3.4"),
        Some(Ip::V6(1, 2, 3, 4, 5, 6, 0x0102, 0x0304))
    );
}

#[test]
fn ipv6_grammar_rejects_malformed_addresses() {
    assert_eq!(parse_ipv6("1:2:3"), None);
    assert_eq!(parse_ipv6("1:2:3:4:5:6:7:8:9"), None);
    assert_eq!(parse_ipv6("1::2::3"), None);
    assert_eq!(parse_ipv6(":::"), None);
    assert_eq!(parse_ipv6(":1:2:3:4:5:6:7"), None);
    assert_eq!(parse_ipv6("1:2:3:4:5:6:7"), None);
    assert_eq!(parse_ipv6("12345::"), None);
    assert_eq!(parse_ipv6("g::1"), None);
    assert_eq!(parse_ipv6("1:2:3:4:5:6:7:8::"), None);
    assert_eq!(parse_ipv6("1.2.3.4::5"), None);
}

#[test]
fn port_grammar() {
    assert_eq!(parse_port("0"), Some(0));
    assert_eq!(parse_port("1080"), Some(1080));
    assert_eq!(parse_port("0080"), Some(80));
    assert_eq!(parse_port("+1"), Some(1));
    assert_eq!(parse_port("65535"), Some(65535));
    assert_eq!(parse_port("65536"), None);
    assert_eq!(parse_port("99999999999999999999"), None);
    assert_eq!(parse_port(""), None);
    assert_eq!(parse_port("+"), None);
    assert_eq!(parse_port("-1"), None);
    assert_eq!(parse_port("80a"), None);
}
