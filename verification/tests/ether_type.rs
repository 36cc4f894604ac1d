use packet_engine::EtherType;

#[test]
fn ether_type_constants() {
    assert_eq!(EtherType::IPV4, 0x0800);
    assert_eq!(EtherType::ARP, 0x0806);
    assert_eq!(EtherType::IPV6, 0x86DD);
}

#[test]
fn ether_type_from_raw_values() {
    assert_eq!(EtherType::from(0x0800u16), EtherType::IPv4);
    assert_eq!(EtherType::from(0x0806u16), EtherType::Arp);
    assert_eq!(EtherType::from(0x86DDu16), EtherType::IPv6);
    assert_eq!(EtherType::from(0x88b5u16), EtherType::Unknown(0x88b5));
    assert_eq!(EtherType::from(0u16), EtherType::Unknown(0));
}

#[test]
fn ether_type_to_raw_values() {
    assert_eq!(u16::from(EtherType::IPv4), 0x0800);
    assert_eq!(u16::from(EtherType::Arp), 0x0806);
    assert_eq!(u16::from(EtherType::IPv6), 0x86DD);
    assert_eq!(u16::from(EtherType::Unknown(0x1234)), 0x1234);
}

#[test]
fn raw_value_roundtrip() {
    for v in [0u16, 1, 0x0800, 0x0806, 0x86DD, 0x88b5, 0xffff] {
        assert_eq!(u16::from(EtherType::from(v)), v);
    }
}

#[test]
fn canonical_variant_roundtrip() {
    for e in [
        EtherType::IPv4,
        EtherType::Arp,
        EtherType::IPv6,
        EtherType::Unknown(0x88b5),
    ] {
        assert_eq!(EtherType::from(u16::from(e)), e);
    }
}

#[test]
fn non_canonical_unknown_decodes_to_known_variant() {
    // Unknown holding a known value is not given back by a round trip.
    assert_eq!(EtherType::from(u16::from(EtherType::Unknown(0x0800))), EtherType::IPv4);
}
