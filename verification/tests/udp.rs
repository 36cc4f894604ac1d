use packet_engine::layers::udp::UdpHeader;

#[test]
fn parse_valid_up_packet() {
    let packet = [
        0x04, 0xd2,
        0x00, 0x50,
        0x00, 0x0c,
        0x1a, 0x2b,
        0xde, 0xad, 0xbe, 0xef,
    ];

    let (hdr, payload) = UdpHeader::parse(&packet).unwrap();

    assert_eq!(hdr.src_port, 1234);
    assert_eq!(hdr.dst_port, 80);
    assert_eq!(hdr.length, 12);
    assert_eq!(hdr.checksum, 0x1a2b);
    assert_eq!(payload, &[0xde, 0xad, 0xbe, 0xef]);
}

#[test]
fn parse_udp_packet_too_short() {
    let packet = [0x04, 0xd2, 0x00, 0x50];
    assert_eq!(UdpHeader::parse(&packet), Err("Packet too short for UDP header"));
}

#[test]
fn parse_udp_seven_bytes_too_short() {
    let packet = [0u8; 7];
    assert_eq!(UdpHeader::parse(&packet), Err("Packet too short for UDP header"));
}

#[test]
fn parse_udp_header_only() {
    let packet = [0xff, 0xff, 0x00, 0x35, 0x00, 0x08, 0x00, 0x00];
    let (hdr, payload) = UdpHeader::parse(&packet).unwrap();
    assert_eq!(
        hdr,
        UdpHeader { src_port: 65535, dst_port: 53, length: 8, checksum: 0 }
    );
    assert!(payload.is_empty());
}

#[test]
fn udp_appended_bytes_extend_payload() {
    let short = [0, 1, 0, 2, 0, 9, 0, 0, 0xaa];
    let long = [0, 1, 0, 2, 0, 9, 0, 0, 0xaa, 0xbb];
    let (h1, p1) = UdpHeader::parse(&short).unwrap();
    let (h2, p2) = UdpHeader::parse(&long).unwrap();
    assert_eq!(h1, h2);
    assert_eq!(p1, &[0xaa]);
    assert_eq!(p2, &[0xaa, 0xbb]);
}

#[test]
fn udp_distinct_bytes_distinct_headers() {
    let a = [0, 1, 0, 2, 0, 8, 0, 0];
    let b = [1, 0, 0, 2, 0, 8, 0, 0];
    let (ha, _) = UdpHeader::parse(&a).unwrap();
    let (hb, _) = UdpHeader::parse(&b).unwrap();
    assert_eq!(ha.src_port, 1);
    assert_eq!(hb.src_port, 256);
    assert_ne!(ha, hb);
}

#[test]
fn udp_header_len_constant() {
    assert_eq!(UdpHeader::HEADER_LEN, 8);
}
