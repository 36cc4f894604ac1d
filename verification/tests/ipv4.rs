use packet_engine::layers::ipv4::Ipv4Header;

#[test]
fn parse_ipv4_version_and_ihl() {
    let packet = [
        0x45, 0x00, 0x00, 0x18,
        0x00, 0x00, 0x00, 0x00,
        0x40, 0x06, 0x00, 0x00,
        192, 168, 1, 10,
        192, 168, 1, 20,
        0xde, 0xad, 0xbe, 0xef,
    ];

    let (hdr, payload) = Ipv4Header::parse(&packet).unwrap();

    assert_eq!(hdr.version, 4);
    assert_eq!(hdr.ihl, 5);
    assert_eq!(hdr.ttl, 64);
    assert_eq!(hdr.protocol, 6);
    assert_eq!(hdr.src_ip, [192, 168, 1, 10]);
    assert_eq!(hdr.dst_ip, [192, 168, 1, 20]);
    assert_eq!(payload, &[0xde, 0xad, 0xbe, 0xef]);
}

#[test]
fn parse_ipv4_with_options() {
    let packet = [
        0x46, 0x00, 0x00, 0x1c,
        0x00, 0x00, 0x00, 0x00,
        0x40, 0x06, 0x00, 0x00,
        192, 168, 1, 10,
        192, 168, 1, 20,
        0x01, 0x01, 0x01, 0x01,
        0xaa, 0xbb, 0xcc, 0xdd,
    ];

    let (hdr, payload) = Ipv4Header::parse(&packet).unwrap();

    assert_eq!(hdr.ihl, 6);
    assert_eq!(payload, &[0xaa, 0xbb, 0xcc, 0xdd]);
}

#[test]
fn parse_ipv4_invalid_ihl() {
    let mut packet = [0u8; 20];
    packet[0] = 0x44;

    assert_eq!(
        Ipv4Header::parse(&packet),
        Err("Invalid IPv4 header length (IHL must be >= 5)")
    );
}

#[test]
fn parse_ipv4_too_short() {
    let packet = [0x45u8; 19];
    assert_eq!(
        Ipv4Header::parse(&packet),
        Err("Packet too short for IPv4 header")
    );
}

#[test]
fn parse_ipv4_wrong_version() {
    let mut packet = [0u8; 40];
    packet[0] = 0x65;
    assert_eq!(Ipv4Header::parse(&packet), Err("Unsupported IPv4 version"));
}

#[test]
fn parse_ipv4_version_checked_before_ihl() {
    let mut packet = [0u8; 20];
    packet[0] = 0x60;
    assert_eq!(Ipv4Header::parse(&packet), Err("Unsupported IPv4 version"));
}

#[test]
fn parse_ipv4_options_missing() {
    let mut packet = [0u8; 23];
    packet[0] = 0x46;
    assert_eq!(
        Ipv4Header::parse(&packet),
        Err("Packet too short for IPv4 options")
    );
}

#[test]
fn parse_ipv4_max_header_len() {
    let mut packet = [0u8; 61];
    packet[0] = 0x4f;
    packet[60] = 0x99;
    let (hdr, payload) = Ipv4Header::parse(&packet).unwrap();
    assert_eq!(hdr.ihl, 15);
    assert_eq!(payload, &[0x99]);
}

#[test]
fn parse_ipv4_header_only() {
    let mut packet = [0u8; 20];
    packet[0] = 0x45;
    packet[8] = 1;
    packet[9] = 17;
    let (hdr, payload) = Ipv4Header::parse(&packet).unwrap();
    assert_eq!(hdr.ttl, 1);
    assert_eq!(hdr.protocol, 17);
    assert!(payload.is_empty());
}

#[test]
fn ipv4_appended_bytes_extend_payload() {
    let mut short = [0u8; 21];
    short[0] = 0x45;
    short[20] = 7;
    let mut long = [0u8; 23];
    long[0] = 0x45;
    long[20] = 7;
    long[21] = 8;
    long[22] = 9;
    let (h1, p1) = Ipv4Header::parse(&short).unwrap();
    let (h2, p2) = Ipv4Header::parse(&long).unwrap();
    assert_eq!(h1, h2);
    assert_eq!(p1, &[7]);
    assert_eq!(p2, &[7, 8, 9]);
}

#[test]
fn ipv4_first_byte_rejection_survives_appending() {
    let mut packet = [0u8; 20];
    packet[0] = 0x43;
    let mut longer = [0u8; 64];
    longer[0] = 0x43;
    assert_eq!(Ipv4Header::parse(&packet), Ipv4Header::parse(&longer));
}

#[test]
fn ipv4_min_header_len_constant() {
    assert_eq!(Ipv4Header::MIN_HEADER_LEN, 20);
}
