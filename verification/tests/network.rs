use astral_wfp::{AddressSpec, CidrError, IpAddress, IpNetwork};

#[test]
fn test_ip_network_parsing() {
    let network = IpNetwork::from_cidr("192.168.0.0/24");
    assert!(network.is_ok());
    let network = network.unwrap();
    assert_eq!(network.prefix_len, 24);

    let network = IpNetwork::from_cidr("2001:db8::/32");
    assert!(network.is_ok());
    let network = network.unwrap();
    assert_eq!(network.prefix_len, 32);

    assert!(IpNetwork::from_cidr("invalid").is_err());
    assert!(IpNetwork::from_cidr("192.168.0.0").is_err());
    assert!(IpNetwork::from_cidr("192.168.0.0/33").is_err());
}

#[test]
fn ipv4_text_is_read_octet_by_octet() {
    assert_eq!(IpAddress::parse("1.2.3.4"), Some(IpAddress::V4(0x01020304)));
    assert_eq!(IpAddress::parse("0.0.0.0"), Some(IpAddress::V4(0)));
    assert_eq!(IpAddress::parse("255.255.255.255"), Some(IpAddress::V4(u32::MAX)));
    assert_eq!(IpAddress::parse("10.0.0.1"), Some(IpAddress::V4(0x0a000001)));
}

#[test]
fn ipv4_text_with_a_flaw_is_refused() {
    for text in [
        "", "1.2.3", "1.2.3.4.5", "1.2.3.", ".1.2.3", "1..2.3", "256.1.1.1", "1.2.3.04",
        "01.2.3.4", "1.2.3.4 ", " 1.2.3.4", "1.2.3.a", "1234.1.1.1", "+1.2.3.4", "1.2.3.-4",
    ] {
        assert_eq!(IpAddress::parse(text), None, "{}", text);
    }
}

#[test]
fn ipv6_text_is_read_group_by_group() {
    assert_eq!(IpAddress::parse("::"), Some(IpAddress::V6(0)));
    assert_eq!(IpAddress::parse("::1"), Some(IpAddress::V6(1)));
    assert_eq!(IpAddress::parse("1::"), Some(IpAddress::V6(1u128 << 112)));
    assert_eq!(
        IpAddress::parse("2001:db8::"),
        Some(IpAddress::V6(0x2001_0db8_0000_0000_0000_0000_0000_0000))
    );
    assert_eq!(
        IpAddress::parse("1:2:3:4:5:6:7:8"),
        Some(IpAddress::V6(0x0001_0002_0003_0004_0005_0006_0007_0008))
    );
    assert_eq!(
        IpAddress::parse("FE80::abCD:1"),
        Some(IpAddress::V6(0xfe80_0000_0000_0000_0000_0000_abcd_0001))
    );
    assert_eq!(
        IpAddress::parse("1:2:3:4:5:6:7::"),
        Some(IpAddress::V6(0x0001_0002_0003_0004_0005_0006_0007_0000))
    );
    assert_eq!(
        IpAddress::parse("::2:3:4:5:6:7:8"),
        Some(IpAddress::V6(0x0000_0002_0003_0004_0005_0006_0007_0008))
    );
}

#[test]
fn ipv6_text_may_end_in_a_dotted_address() {
    assert_eq!(
        IpAddress::parse("::ffff:1.2.3.4"),
        Some(IpAddress::V6(0x0000_0000_0000_0000_0000_ffff_0102_0304))
    );
    assert_eq!(IpAddress::parse("::1.2.3.4"), Some(IpAddress::V6(0x0102_0304)));
    assert_eq!(
        IpAddress::parse("1:2:3:4:5:6:1.2.3.4"),
        Some(IpAddress::V6(0x0001_0002_0003_0004_0005_0006_0102_0304))
    );
    assert_eq!(
        IpAddress::parse("::1:2:3:4:5:1.2.3.4"),
        Some(IpAddress::V6(0x0000_0001_0002_0003_0004_0005_0102_0304))
    );
}

#[test]
fn ipv6_text_with_a_flaw_is_refused() {
    for text in [
        ":", ":::", "1:::2", "1::2::3", "1:2:3", "1:2:3:4:5:6:7", "1:2:3:4:5:6:7:8:9",
        "1:2:3:4:5:6:7:8::", "::1:2:3:4:5:6:7:8", "1::2:3:4:5:6:7:8", "00001::", "g::",
        "1.2.3.4::", "1.2.3.4:1:2:3:4:5:6", "1:2:3:4:5:6:7:1.2.3.4", "::1:2:3:4:5:6:1.2.3.4",
        "1:", ":1", "1:2:3:4:5:6:7:", ":1:2:3:4:5:6:7", "::1 ", "fe80::1%eth0", "[::1]",
    ] {
        assert_eq!(IpAddress::parse(text), None, "{}", text);
    }
}

#[test]
fn cidr_text_is_normalized_to_the_network_address() {
    assert_eq!(
        IpNetwork::from_cidr("192.168.1.77/24"),
        Ok(IpNetwork { ip: IpAddress::V4(0xc0a80100), prefix_len: 24 })
    );
    assert_eq!(
        IpNetwork::from_cidr("10.1.2.3/8"),
        Ok(IpNetwork { ip: IpAddress::V4(0x0a000000), prefix_len: 8 })
    );
    assert_eq!(
        IpNetwork::from_cidr("1.2.3.4/0"),
        Ok(IpNetwork { ip: IpAddress::V4(0), prefix_len: 0 })
    );
    assert_eq!(
        IpNetwork::from_cidr("1.2.3.4/32"),
        Ok(IpNetwork { ip: IpAddress::V4(0x01020304), prefix_len: 32 })
    );
    assert_eq!(
        IpNetwork::from_cidr("1.2.3.4/+031"),
        Ok(IpNetwork { ip: IpAddress::V4(0x01020304), prefix_len: 31 })
    );
    assert_eq!(
        IpNetwork::from_cidr("2001:db8:ffff::1/33"),
        Ok(IpNetwork { ip: IpAddress::V6(0x2001_0db8_8000_0000_0000_0000_0000_0000), prefix_len: 33 })
    );
    assert_eq!(
        IpNetwork::from_cidr("ffff::ffff/0"),
        Ok(IpNetwork { ip: IpAddress::V6(0), prefix_len: 0 })
    );
    assert_eq!(
        IpNetwork::from_cidr("ffff::ffff/128"),
        Ok(IpNetwork { ip: IpAddress::V6(0xffff_0000_0000_0000_0000_0000_0000_ffff), prefix_len: 128 })
    );
}

#[test]
fn cidr_text_is_refused_with_the_matching_error() {
    assert_eq!(IpNetwork::from_cidr("invalid"), Err(CidrError::InvalidFormat));
    assert_eq!(IpNetwork::from_cidr("1.2.3.4"), Err(CidrError::InvalidFormat));
    assert_eq!(IpNetwork::from_cidr("1.2.3.4/8/9"), Err(CidrError::InvalidFormat));
    assert_eq!(IpNetwork::from_cidr(""), Err(CidrError::InvalidFormat));
    assert_eq!(IpNetwork::from_cidr("/8"), Err(CidrError::InvalidAddress));
    assert_eq!(IpNetwork::from_cidr("1.2.3/8"), Err(CidrError::InvalidAddress));
    assert_eq!(IpNetwork::from_cidr("1.2.3.4/"), Err(CidrError::InvalidPrefix));
    assert_eq!(IpNetwork::from_cidr("1.2.3.4/x"), Err(CidrError::InvalidPrefix));
    assert_eq!(IpNetwork::from_cidr("1.2.3.4/-1"), Err(CidrError::InvalidPrefix));
    assert_eq!(IpNetwork::from_cidr("1.2.3.4/256"), Err(CidrError::InvalidPrefix));
    assert_eq!(
        IpNetwork::from_cidr("192.168.0.0/33"),
        Err(CidrError::PrefixTooLarge { prefix: 33, max: 32 })
    );
    assert_eq!(
        IpNetwork::from_cidr("::/129"),
        Err(CidrError::PrefixTooLarge { prefix: 129, max: 128 })
    );
}

#[test]
fn contains_compares_the_leading_bits() {
    let net = IpNetwork::from_cidr("10.0.0.0/8").unwrap();
    assert!(net.contains(&IpAddress::V4(0x0a000000)));
    assert!(net.contains(&IpAddress::V4(0x0affffff)));
    assert!(!net.contains(&IpAddress::V4(0x0b000000)));
    assert!(!net.contains(&IpAddress::V4(0x09ffffff)));
    assert!(!net.contains(&IpAddress::V6(0x0a000000)));

    let all = IpNetwork::from_cidr("0.0.0.0/0").unwrap();
    assert!(all.contains(&IpAddress::V4(0)));
    assert!(all.contains(&IpAddress::V4(u32::MAX)));

    let one = IpNetwork::from_cidr("1.2.3.4/32").unwrap();
    assert!(one.contains(&IpAddress::V4(0x01020304)));
    assert!(!one.contains(&IpAddress::V4(0x01020305)));

    let v6 = IpNetwork::from_cidr("2001:db8::/33").unwrap();
    assert!(v6.contains(&IpAddress::parse("2001:db8:7fff::1").unwrap()));
    assert!(!v6.contains(&IpAddress::parse("2001:db8:8000::1").unwrap()));
    assert!(!v6.contains(&IpAddress::V4(0x20010db8)));

    let v6_all = IpNetwork::from_cidr("::/0").unwrap();
    assert!(v6_all.contains(&IpAddress::V6(u128::MAX)));
    let v6_one = IpNetwork::from_cidr("::1/128").unwrap();
    assert!(v6_one.contains(&IpAddress::V6(1)));
    assert!(!v6_one.contains(&IpAddress::V6(2)));
}

#[test]
fn cidr_errors_are_told_in_words() {
    assert_eq!(CidrError::InvalidFormat.message(), "Invalid CIDR format");
    assert_eq!(CidrError::InvalidAddress.message(), "Invalid IP address");
    assert_eq!(CidrError::InvalidPrefix.message(), "Invalid prefix length");
    assert_eq!(
        CidrError::PrefixTooLarge { prefix: 33, max: 32 }.message(),
        "Prefix length 33 exceeds maximum 32"
    );
    assert_eq!(
        IpNetwork::from_cidr("::/200").unwrap_err().message(),
        "Prefix length 200 exceeds maximum 128"
    );
}

#[test]
fn a_network_made_of_an_address_is_normalized() {
    assert_eq!(
        IpNetwork::new(IpAddress::V4(0xc0a80137), 24),
        IpNetwork { ip: IpAddress::V4(0xc0a80100), prefix_len: 24 }
    );
    assert_eq!(
        IpNetwork::new(IpAddress::V6(u128::MAX), 127),
        IpNetwork { ip: IpAddress::V6(u128::MAX - 1), prefix_len: 127 }
    );
    assert_eq!(
        IpNetwork::new(IpAddress::V6(u128::MAX), 1),
        IpNetwork { ip: IpAddress::V6(1u128 << 127), prefix_len: 1 }
    );
    assert_eq!(IpAddress::V4(1).family_bits(), 32);
    assert_eq!(IpAddress::V6(1).family_bits(), 128);
    assert!(IpAddress::V6(1).is_v6());
    assert!(!IpAddress::V4(1).is_v6());
}

#[test]
fn address_specs_are_addresses_first_and_networks_second() {
    assert_eq!(AddressSpec::parse("1.2.3.4"), AddressSpec::Single(IpAddress::V4(0x01020304)));
    assert_eq!(AddressSpec::parse("::1"), AddressSpec::Single(IpAddress::V6(1)));
    assert_eq!(
        AddressSpec::parse("1.2.3.4/16"),
        AddressSpec::Network(IpNetwork { ip: IpAddress::V4(0x01020000), prefix_len: 16 })
    );
    assert_eq!(AddressSpec::parse("1.2.3.4/"), AddressSpec::Unreadable);
    assert_eq!(AddressSpec::parse(""), AddressSpec::Unreadable);
}
