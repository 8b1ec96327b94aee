use ip_cidr::{IpAddr, Ipv4Addr, Ipv6Addr, ParseError, Parser};

#[test]
fn parser_steps_by_hand() {
    let mut p = Parser::new("1:2");
    assert_eq!(p.on_digit(0), None);
    assert_eq!(p.on_v6_sep(1), None);
    assert_eq!(p.on_v4_sep(2), Some(ParseError::InvalidIpv4));

    let mut p = Parser::new(":1");
    assert_eq!(p.on_v6_sep(0), None);
    assert_eq!(p.on_digit(1), Some(ParseError::InvalidIpv6));

    let mut p = Parser::new("7.");
    assert_eq!(p.on_digit(0), None);
    assert_eq!(p.on_v6_sep(1), None);
    let mut p = Parser::new("7.");
    assert_eq!(p.on_digit(0), None);
    assert_eq!(p.on_v4_sep(1), None);
    assert_eq!(p.on_v4_sep(1), Some(ParseError::InvalidIpv4));
}

#[test]
fn parser_reads_whole_text() {
    let mut p = Parser::new("10.0.0.1/8");
    assert_eq!(p.parse(), Ok((IpAddr::V4(Ipv4Addr::new(10, 0, 0, 1)), Some(8))));
    let mut p = Parser::new("::ffff/128");
    assert_eq!(p.parse(), Ok((IpAddr::V6(Ipv6Addr::new(0, 0, 0, 0, 0, 0, 0, 0xffff)), Some(128))));
}

#[test]
fn zero_run_placement() {
    let v6 = |s: [u16; 8]| IpAddr::V6(Ipv6Addr::new(s[0], s[1], s[2], s[3], s[4], s[5], s[6], s[7]));
    assert_eq!(ip_cidr::parse_ip("1::2:"), Ok((v6([1, 0, 0, 0, 0, 0, 0, 2]), None)));
    assert_eq!(ip_cidr::parse_ip("1:2:3:4::5:6:7:8"), Ok((v6([1, 2, 3, 4, 5, 6, 7, 8]), None)));
    assert_eq!(ip_cidr::parse_ip("a:b:c:d:e:f::1"), Ok((v6([10, 11, 12, 13, 14, 15, 0, 1]), None)));
    assert_eq!(ip_cidr::parse_ip("0001:0:0:0:0:0:0:0"), Ok((v6([1, 0, 0, 0, 0, 0, 0, 0]), None)));
    assert_eq!(Ipv6Addr::new(1, 0, 0, 0, 0, 0, 0, 2).to_bits(), (1u128 << 112) | 2);
}
