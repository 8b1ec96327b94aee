use ip_cidr::{parse_cidr, parse_ip, Cidr, IpAddr, Ipv6Addr, ParseError};

const M: u16 = u16::MAX;

fn v6(a: u16, b: u16, c: u16, d: u16, e: u16, f: u16, g: u16, h: u16) -> IpAddr {
    IpAddr::V6(Ipv6Addr::new(a, b, c, d, e, f, g, h))
}

#[test]
fn should_verify_v6_prefix_size() {
    let addr = Ipv6Addr::new(0, 0, 0, 0, 0, 0, 0, 0);

    let mut cidr = Cidr::new_v6(addr, 0).expect("to create");
    //Broadcast address is never included
    assert_eq!(cidr.size(), u128::MAX, "/0 has invalid size");
    assert_eq!(cidr.get(u128::MAX), None);
    assert_eq!(cidr.get(u128::MAX - 1), Some(v6(M, M, M, M, M, M, M, M - 1)));
    for prefix in 1..=64u8 {
        cidr = Cidr::new_v6(addr, prefix).expect("to create");
        let expected_size = 2u128.pow((128 - prefix) as u32);
        assert_eq!(cidr.size(), expected_size, "/{} has invalid size", prefix);

        let mut addr = IpAddr::V6(Ipv6Addr::from_bits(0));
        assert!(cidr.contains(addr), "{:?} is not contained in cidr={:?}", addr, cidr);
        addr = IpAddr::V6(Ipv6Addr::from_bits(expected_size - 1));
        assert!(cidr.contains(addr), "{:?} is not contained in cidr={:?}", addr, cidr);
    }

    //check math never panics
    cidr = Cidr::new_v6(Ipv6Addr::new(M, M, M, M, M, M, M, M - 3), 127).expect("to create");
    assert_eq!(cidr.size(), 2);
    assert_eq!(cidr.get_unchecked(0), v6(M, M, M, M, M, M, M, M - 3));
    assert_eq!(cidr.get_unchecked(1), v6(M, M, M, M, M, M, M, M - 2));
    assert_eq!(cidr.get_unchecked(2), v6(M, M, M, M, M, M, M, M - 1));

    //wrap
    assert_eq!(cidr.get_unchecked(3), v6(M, M, M, M, M, M, M, M));
    assert_eq!(cidr.get_unchecked(4), v6(0, 0, 0, 0, 0, 0, 0, 0));
}

#[test]
fn should_parse_ipv6() {
    let inputs = [
        ("::1:2:3:4:5", Ipv6Addr::new(0, 0, 0, 1, 2, 3, 4, 5)),
        ("0:0:0:1:2:3:4:5", Ipv6Addr::new(0, 0, 0, 1, 2, 3, 4, 5)),
        ("1:2::3:4:5", Ipv6Addr::new(1, 2, 0, 0, 0, 3, 4, 5)),
        ("1:2:0:0:0:3:4:5", Ipv6Addr::new(1, 2, 0, 0, 0, 3, 4, 5)),
        ("1:2:3:4:5::", Ipv6Addr::new(1, 2, 3, 4, 5, 0, 0, 0)),
        ("1:2:3:4:5:0:0:0", Ipv6Addr::new(1, 2, 3, 4, 5, 0, 0, 0)),
        ("0:0:0:0:0:ffff:102:405", Ipv6Addr::new(0, 0, 0, 0, 0, 0xffff, 0x102, 0x405)),
        ("::", Ipv6Addr::new(0, 0, 0, 0, 0, 0, 0, 0)),
        ("::0", Ipv6Addr::new(0, 0, 0, 0, 0, 0, 0, 0)),
        ("::1", Ipv6Addr::new(0, 0, 0, 0, 0, 0, 0, 1)),
        ("0:0:0::1", Ipv6Addr::new(0, 0, 0, 0, 0, 0, 0, 1)),
        ("ffff::1", Ipv6Addr::new(0xffff, 0, 0, 0, 0, 0, 0, 1)),
        ("ffff:0:0:0:0:0:0:1", Ipv6Addr::new(0xffff, 0, 0, 0, 0, 0, 0, 1)),
        ("2001:0db8:0a0b:12f0:0:0:0:1", Ipv6Addr::new(0x2001, 0x0db8, 0x0a0b, 0x12f0, 0, 0, 0, 1)),
        ("2001:db8:a0b:12f0::1", Ipv6Addr::new(0x2001, 0x0db8, 0x0a0b, 0x12f0, 0, 0, 0, 1)),
        ("::ffff:1:2:3:4", Ipv6Addr::new(0, 0, 0, 0xffff, 1, 2, 3, 4)),
    ];

    for (prefix, (text, expected_ip)) in inputs.iter().enumerate() {
        println!("Parse '{text}'");
        let (ip, cidr) = match parse_ip(text) {
            Ok(result) => result,
            Err(error) => panic!("Should parse '{text}' but got error={error:?}"),
        };
        assert_eq!(ip, IpAddr::V6(*expected_ip));
        assert!(cidr.is_none());

        let with_cidr = format!("{text}/{prefix}");
        println!("Parse '{with_cidr}'");
        let (ip, cidr) = match parse_ip(&with_cidr) {
            Ok(result) => result,
            Err(error) => panic!("Should parse '{text}' but got error={error:?}"),
        };
        assert_eq!(ip, IpAddr::V6(*expected_ip));
        assert_eq!(cidr, Some(prefix as u8));
    }
}

#[test]
fn should_not_parse_ipv6() {
    let inputs = [
        ("", ParseError::MissingIp),
        ("-f:", ParseError::UnexpectedCharacter('-', 0)),
        ("%f::", ParseError::UnexpectedCharacter('%', 0)),
        ("0:0:0", ParseError::Ipv6InvalidComponentSize(3)),
        ("1:2:3:4:5:6:7:8:9", ParseError::Ipv6InvalidComponentSize(9)),
        ("0:::", ParseError::Ipv6MultipleZeroAbbrv),
        ("1ffff::", ParseError::InvalidComponent("1ffff")),
        ("f", ParseError::InvalidIp),
        ("f:f", ParseError::Ipv6InvalidComponentSize(2)),
        ("1:f", ParseError::Ipv6InvalidComponentSize(2)),
        ("f:1", ParseError::Ipv6InvalidComponentSize(2)),
        ("ffff::/129", ParseError::Ipv6CidrPrefixOverflow(129)),
    ];

    for (prefix, (text, expected_error)) in inputs.iter().enumerate() {
        println!("Parse '{text}'");
        let error = parse_ip(text).expect_err("should fail");
        assert_eq!(error, *expected_error);

        let with_cidr = format!("{text}/{prefix}");
        println!("Parse '{with_cidr}'");
        let error = parse_ip(text).expect_err("should fail");
        assert_eq!(error, *expected_error);
    }
}

#[test]
fn v6_literal_scenarios() {
    assert_eq!(parse_ip("::1:2:3:4:5"), Ok((v6(0, 0, 0, 1, 2, 3, 4, 5), None)));
    assert_eq!(parse_ip("1:2:3:4:5::"), Ok((v6(1, 2, 3, 4, 5, 0, 0, 0), None)));
    assert_eq!(parse_ip("0:::"), Err(ParseError::Ipv6MultipleZeroAbbrv));
    assert_eq!(parse_ip("1::2::3"), Err(ParseError::Ipv6MultipleZeroAbbrv));
    assert_eq!(parse_ip("ffff::/129"), Err(ParseError::Ipv6CidrPrefixOverflow(129)));
    assert_eq!(parse_cidr("ffff::/129"), Err(ParseError::Ipv6CidrPrefixOverflow(129)));
    assert_eq!(parse_ip("::/7"), Ok((v6(0, 0, 0, 0, 0, 0, 0, 0), Some(7))));
    assert_eq!(parse_ip("FFFF::aBc"), Ok((v6(0xffff, 0, 0, 0, 0, 0, 0, 0xabc), None)));
}

#[test]
fn v6_structural_errors() {
    assert_eq!(parse_ip(":1"), Err(ParseError::InvalidIpv6));
    assert_eq!(parse_ip(":"), Err(ParseError::InvalidIpv6));
    assert_eq!(parse_ip("1:2:"), Err(ParseError::InvalidIpv6));
    assert_eq!(parse_ip("1:2:3.4"), Err(ParseError::InvalidIpv6));
    assert_eq!(parse_ip("1.2:3"), Err(ParseError::InvalidIpv4));
    assert_eq!(parse_ip("1::2::"), Err(ParseError::Ipv6MultipleZeroAbbrv));
    assert_eq!(parse_ip("12345::"), Err(ParseError::InvalidComponent("12345")));
}

#[test]
fn v6_block_arithmetic() {
    let cidr = parse_cidr("2001:db8::1/32").unwrap().unwrap();
    assert_eq!(cidr.prefix(), 32);
    assert_eq!(cidr.network_addr(), v6(0x2001, 0xdb8, 0, 0, 0, 0, 0, 0));
    assert_eq!(cidr.broadcast_addr(), v6(0x2001, 0xdb8, M, M, M, M, M, M));
    assert_eq!(cidr.size(), 1u128 << 96);
    assert!(cidr.contains(cidr.network_addr()));
    assert!(cidr.contains(cidr.broadcast_addr()));
    assert!(!cidr.contains(v6(0x2001, 0xdb9, 0, 0, 0, 0, 0, 0)));
    assert!(!cidr.contains(IpAddr::V4(ip_cidr::Ipv4Addr::new(0, 0, 0, 0))));
    assert_eq!(cidr.get(1u128 << 96), None);
    assert_eq!(cidr.get(5), Some(v6(0x2001, 0xdb8, 0, 0, 0, 0, 0, 5)));
    let single = parse_cidr("::1").unwrap().unwrap();
    assert_eq!(single.prefix(), 128);
    assert_eq!(single.size(), 1);
    assert!(Cidr::new_v6(Ipv6Addr::from_bits(1), 129).is_none());
    assert_eq!(Cidr::IPV4_BITS, 32);
    assert_eq!(Cidr::IPV6_BITS, 128);
}

#[test]
fn v6_round_trip_through_text() {
    let blocks = [
        (Ipv6Addr::new(0x2001, 0xdb8, 0, 0, 0, 0, 0, 1), 64u8),
        (Ipv6Addr::new(M, M, M, M, M, M, M, M), 128),
        (Ipv6Addr::new(0, 0, 0, 0, 0, 0, 0, 0), 0),
    ];
    for (addr, prefix) in blocks {
        let cidr = Cidr::new_v6(addr, prefix).unwrap();
        let b = addr.to_bits();
        let groups: Vec<String> = (0..8).map(|i| format!("{:x}", (b >> (112 - 16 * i)) as u16)).collect();
        assert_eq!(parse_ip(&groups.join(":")), Ok((IpAddr::V6(addr), None)));
        let text = format!("{}/{}", groups.join(":"), prefix);
        let back = parse_cidr(&text).unwrap().unwrap();
        assert_eq!(back, cidr);
        assert_eq!((back.addr(), back.prefix()), (IpAddr::V6(addr), prefix));
    }
}
