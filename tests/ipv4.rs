use ip_cidr::{parse_cidr, parse_ip, Cidr, IpAddr, Ipv4Addr, ParseError};

fn v4(a: u8, b: u8, c: u8, d: u8) -> IpAddr {
    IpAddr::V4(Ipv4Addr::new(a, b, c, d))
}

#[test]
fn should_verify_v4_prefix_size() {
    let addr = Ipv4Addr::new(0, 0, 0, 0);

    let mut cidr = Cidr::new_v4(addr, 0).expect("to create");
    //Broadcast address is never included
    assert_eq!(cidr.size(), u32::MAX as u128, "/0 has invalid size");
    assert_eq!(cidr.get(u32::MAX as u128), None);
    assert_eq!(cidr.get((u32::MAX - 1) as u128), Some(v4(255, 255, 255, 254)));

    for prefix in 1..=32u8 {
        cidr = Cidr::new_v4(addr, prefix).expect("to create");
        let expected_size = 2u128.pow((32 - prefix) as u32);
        assert_eq!(cidr.size(), expected_size, "/{} has invalid size", prefix);
        // every address of the block is contained; the ends and a spread of inner addresses are checked
        let last = (expected_size - 1) as u32;
        let step = (last / 997).max(1);
        let mut bits: u32 = 0;
        loop {
            let addr = IpAddr::V4(Ipv4Addr::from_bits(bits));
            assert!(cidr.contains(addr), "{:?} is not contained in cidr={:?}", addr, cidr);
            if bits == last {
                break;
            }
            bits = bits.saturating_add(step).min(last);
        }
    }

    //check math never panics
    cidr = Cidr::new_v4(Ipv4Addr::new(255, 255, 255, 30), 31).expect("to create");
    assert_eq!(cidr.size(), 2);
    assert_eq!(cidr.get_unchecked(0), v4(255, 255, 255, 30));
    assert_eq!(cidr.get_unchecked(1), v4(255, 255, 255, 31));
    assert_eq!(cidr.get_unchecked(2), v4(255, 255, 255, 32));

    //wrap
    assert_eq!(cidr.get_unchecked(225), v4(255, 255, 255, 255));
    assert_eq!(cidr.get_unchecked(226), v4(0, 0, 0, 0));
}

#[test]
fn should_parse_ipv4() {
    let inputs = [
        ("127.0.0.1", Ipv4Addr::new(127, 0, 0, 1)),
        ("0.0.0.0", Ipv4Addr::new(0, 0, 0, 0)),
        ("255.255.255.255", Ipv4Addr::new(255, 255, 255, 255)),
    ];

    for (prefix, (text, expected_ip)) in inputs.iter().enumerate() {
        println!("Parse '{text}'");
        let (ip, cidr) = match parse_ip(text) {
            Ok(result) => result,
            Err(error) => panic!("Should parse '{text}' but got error={error:?}"),
        };
        assert_eq!(ip, IpAddr::V4(*expected_ip));
        assert!(cidr.is_none());

        let with_cidr = format!("{text}/{prefix}");
        println!("Parse '{with_cidr}'");
        let (ip, cidr) = match parse_ip(&with_cidr) {
            Ok(result) => result,
            Err(error) => panic!("Should parse '{text}' but got error={error:?}"),
        };
        assert_eq!(ip, IpAddr::V4(*expected_ip));
        assert_eq!(cidr, Some(prefix as u8));
    }
}

#[test]
fn should_not_parse_ipv4() {
    let inputs = [
        ("", ParseError::MissingIp),
        ("-1.", ParseError::UnexpectedCharacter('-', 0)),
        ("%1.", ParseError::UnexpectedCharacter('%', 0)),
        ("0.0.0", ParseError::Ipv4InvalidComponentSize(3)),
        ("127.0.0.1.5", ParseError::Ipv4InvalidComponentSize(5)),
        ("1..", ParseError::InvalidIpv4),
        ("256.0.0.1", ParseError::InvalidComponent("256")),
        ("1", ParseError::InvalidIp),
        ("1.1", ParseError::Ipv4InvalidComponentSize(2)),
        ("1.f", ParseError::InvalidComponent("f")),
        ("f.1", ParseError::InvalidComponent("f")),
        ("127.0.0.1/33", ParseError::Ipv4CidrPrefixOverflow(33)),
        ("127.1.0.900", ParseError::InvalidComponent("900")),
    ];

    for (prefix, (text, expected_error)) in inputs.iter().enumerate() {
        println!("Parse '{text}'");
        let error = parse_ip(text).expect_err("should fail");
        assert_eq!(error, *expected_error);

        let with_cidr = format!("{text}/{prefix}");
        println!("Parse '{with_cidr}'");
        let error = parse_ip(text).expect_err("should fail");
        assert_eq!(error, *expected_error);
    }
}

#[test]
fn v4_whole_space_reports_saturated_size() {
    let cidr = parse_cidr("127.0.0.1/0").unwrap().unwrap();
    assert_eq!(cidr.addr(), v4(127, 0, 0, 1));
    assert_eq!(cidr.prefix(), 0);
    assert_eq!(cidr.size(), 4294967295);
    assert_eq!(cidr.network_addr(), v4(0, 0, 0, 0));
    assert_eq!(cidr.broadcast_addr(), v4(255, 255, 255, 255));
}

#[test]
fn v4_sizes_are_powers_of_two() {
    let addr = Ipv4Addr::new(10, 1, 2, 3);
    for prefix in 1..=32u8 {
        let cidr = Cidr::new_v4(addr, prefix).unwrap();
        assert_eq!(cidr.size(), 1u128 << (32 - prefix));
    }
    assert_eq!(Cidr::new_v4(addr, 24).unwrap().size(), 256);
    assert_eq!(Cidr::new_v4(addr, 32).unwrap().size(), 1);
}

#[test]
fn v4_block_arithmetic() {
    let cidr = Cidr::new_v4(Ipv4Addr::new(192, 168, 1, 77), 24).unwrap();
    assert_eq!(cidr.network_addr(), v4(192, 168, 1, 0));
    assert_eq!(cidr.broadcast_addr(), v4(192, 168, 1, 255));
    assert!(cidr.contains(cidr.network_addr()));
    assert!(cidr.contains(cidr.broadcast_addr()));
    assert!(cidr.contains(v4(192, 168, 1, 5)));
    assert!(!cidr.contains(v4(192, 168, 2, 0)));
    assert!(!cidr.contains(IpAddr::V6(ip_cidr::Ipv6Addr::new(0, 0, 0, 0, 0, 0, 0, 0))));
    assert_eq!(cidr.get(0), Some(v4(192, 168, 1, 0)));
    assert_eq!(cidr.get(255), Some(v4(192, 168, 1, 255)));
    assert_eq!(cidr.get(256), None);
    assert_eq!(cidr.get(1u128 << 32), None);
    assert_eq!(cidr.get(10), Some(cidr.get_unchecked(10)));
    assert_eq!(cidr.get_unchecked(256), v4(192, 168, 2, 0));
}

#[test]
fn v4_construction_checks_prefix() {
    let addr = Ipv4Addr::new(1, 2, 3, 4);
    assert!(Cidr::new_v4(addr, 32).is_some());
    assert!(Cidr::new_v4(addr, 33).is_none());
    assert!(Cidr::new(IpAddr::V4(addr), 33).is_none());
    let c = Cidr::new(IpAddr::V4(addr), 8).unwrap();
    assert_eq!((c.addr(), c.prefix()), (IpAddr::V4(addr), 8));
    assert_eq!(Ipv4Addr::new(1, 2, 3, 4).to_bits(), 0x01020304);
}

#[test]
fn v4_round_trip_through_text() {
    let blocks = [
        (Ipv4Addr::new(10, 0, 0, 1), 8u8),
        (Ipv4Addr::new(255, 255, 255, 255), 32),
        (Ipv4Addr::new(0, 0, 0, 0), 0),
        (Ipv4Addr::new(172, 16, 254, 3), 20),
    ];
    for (addr, prefix) in blocks {
        let cidr = Cidr::new_v4(addr, prefix).unwrap();
        let b = addr.to_bits().to_be_bytes();
        let bare = format!("{}.{}.{}.{}", b[0], b[1], b[2], b[3]);
        assert_eq!(parse_ip(&bare), Ok((IpAddr::V4(addr), None)));
        let text = format!("{}/{}", bare, prefix);
        let back = parse_cidr(&text).unwrap().unwrap();
        assert_eq!(back, cidr);
        assert_eq!((back.addr(), back.prefix()), (IpAddr::V4(addr), prefix));
    }
}

#[test]
fn v4_parse_without_prefix_is_single_address() {
    let cidr = parse_cidr("8.8.4.4").unwrap().unwrap();
    assert_eq!(cidr.prefix(), 32);
    assert_eq!(cidr.size(), 1);
    assert_eq!(cidr.addr(), v4(8, 8, 4, 4));
}

#[test]
fn v4_prefix_suffix_errors() {
    assert_eq!(parse_ip("1.2.3.4/"), Err(ParseError::MissingCidr));
    assert_eq!(parse_ip("1.2.3.4/x"), Err(ParseError::InvalidCidr("x")));
    assert_eq!(parse_ip("1.2.3.4/300"), Err(ParseError::InvalidCidr("300")));
    assert_eq!(parse_ip("1.2.3.4/8/"), Err(ParseError::InvalidCidr("8/")));
    assert_eq!(parse_ip("1.2.3.4/\u{e9}"), Err(ParseError::InvalidCidr("\u{e9}")));
    assert_eq!(parse_ip("1.2.3.4/+8"), Ok((v4(1, 2, 3, 4), Some(8))));
    assert_eq!(parse_ip("1.2.3.4/32"), Ok((v4(1, 2, 3, 4), Some(32))));
    assert_eq!(parse_cidr("1.2.3.4/33"), Err(ParseError::Ipv4CidrPrefixOverflow(33)));
}

#[test]
fn v4_lexical_errors() {
    assert_eq!(parse_ip("1.2.3.\u{e9}"), Err(ParseError::UnexpectedCharacter('\u{c3}', 6)));
    assert_eq!(parse_ip("1.2 .3"), Err(ParseError::UnexpectedCharacter(' ', 3)));
    assert_eq!(parse_ip("1.2:3.4"), Err(ParseError::InvalidIpv4));
    assert_eq!(parse_ip("/8"), Err(ParseError::MissingIp));
    assert_eq!(parse_ip("01.002.0003.00004"), Ok((v4(1, 2, 3, 4), None)));
}
