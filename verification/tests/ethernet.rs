use packet_engine::{EtherType, EthernetHeader, MacAddress};

#[test]
fn parse_valid_ipv4_frame() {
    // Raw Ethernet frame: 14 bytes header + dummy payload
    let frame: [u8; 18] = [
        0x52, 0x54, 0x00, 0x12, 0x34, 0x56, // Destination MAC
        0x08, 0x00, 0x27, 0xaa, 0xbb, 0xcc, // Source MAC
        0x08, 0x00, // EtherType: IPv4
        0xde, 0xad, 0xbe, 0xef, // Dummy L3 payload
    ];

    let (hdr, payload) = EthernetHeader::parse(&frame).unwrap();

    assert_eq!(hdr.dst, MacAddress([0x52, 0x54, 0x00, 0x12, 0x34, 0x56]));
    assert_eq!(hdr.src, MacAddress([0x08, 0x00, 0x27, 0xaa, 0xbb, 0xcc]));
    assert_eq!(hdr.ether_type, EtherType::IPv4);
    assert_eq!(payload, &[0xde, 0xad, 0xbe, 0xef]);
}

#[test]
fn parse_valid_arp_frame() {
    let frame: [u8; 14] = [
        0xff, 0xff, 0xff, 0xff, 0xff, 0xff,
        0x00, 0x11, 0x22, 0x33, 0x44, 0x55,
        0x08, 0x06,
    ];

    let (hdr, payload) = EthernetHeader::parse(&frame).unwrap();

    assert_eq!(hdr.dst, MacAddress([0xff, 0xff, 0xff, 0xff, 0xff, 0xff]));
    assert_eq!(hdr.src, MacAddress([0x00, 0x11, 0x22, 0x33, 0x44, 0x55]));
    assert_eq!(hdr.ether_type, EtherType::Arp);
    assert!(payload.is_empty());
}

#[test]
fn parse_unknown_ethertype() {
    let frame: [u8; 14] = [
        0x00, 0x00, 0x00, 0x00, 0x00, 0x00,
        0x00, 0x00, 0x00, 0x00, 0x00, 0x00,
        0x88, 0xb5, // IEEE 802.1 Local Experimental EtherType
    ];

    let (hdr, _) = EthernetHeader::parse(&frame).unwrap();
    assert_eq!(hdr.ether_type, EtherType::Unknown(0x88b5));
}

#[test]
fn parse_frame_too_short() {
    let short_frame = [0u8; 13];
    assert_eq!(
        EthernetHeader::parse(&short_frame),
        Err("Frame too short for Ethernet header")
    );
}

#[test]
fn parse_empty_frame_is_too_short() {
    let empty: [u8; 0] = [];
    assert_eq!(
        EthernetHeader::parse(&empty),
        Err("Frame too short for Ethernet header")
    );
}

#[test]
fn parse_ipv6_frame() {
    let frame: [u8; 15] = [
        0x33, 0x33, 0x00, 0x00, 0x00, 0x01,
        0x02, 0x42, 0xac, 0x11, 0x00, 0x02,
        0x86, 0xdd,
        0x60,
    ];
    let (hdr, payload) = EthernetHeader::parse(&frame).unwrap();
    assert_eq!(hdr.ether_type, EtherType::IPv6);
    assert_eq!(payload, &[0x60]);
}

#[test]
fn ethertype_is_read_big_endian() {
    // 0x0608 would be the value read in the wrong byte order.
    let mut frame = [0u8; 14];
    frame[12] = 0x06;
    frame[13] = 0x08;
    let (hdr, _) = EthernetHeader::parse(&frame).unwrap();
    assert_eq!(hdr.ether_type, EtherType::Unknown(0x0608));
}

#[test]
fn appended_bytes_leave_header_unchanged() {
    let frame: [u8; 16] = [
        1, 2, 3, 4, 5, 6, 7, 8, 9, 10, 11, 12, 0x08, 0x06, 0xaa, 0xbb,
    ];
    let longer: [u8; 18] = [
        1, 2, 3, 4, 5, 6, 7, 8, 9, 10, 11, 12, 0x08, 0x06, 0xaa, 0xbb, 0xcc, 0xdd,
    ];
    let (h1, p1) = EthernetHeader::parse(&frame).unwrap();
    let (h2, p2) = EthernetHeader::parse(&longer).unwrap();
    assert_eq!(h1, h2);
    assert_eq!(p1, &[0xaa, 0xbb]);
    assert_eq!(p2, &[0xaa, 0xbb, 0xcc, 0xdd]);
}

#[test]
fn different_headers_from_different_frames() {
    let a: [u8; 14] = [0; 14];
    let mut b: [u8; 14] = [0; 14];
    b[7] = 1;
    let (ha, _) = EthernetHeader::parse(&a).unwrap();
    let (hb, _) = EthernetHeader::parse(&b).unwrap();
    assert_ne!(ha, hb);
}

#[test]
fn header_len_constant() {
    assert_eq!(EthernetHeader::HEADER_LEN, 14);
}
