use packet_engine::bytes::{read_be16, read_le16, read_le32};

#[test]
fn read_be16_values() {
    let data = [0x12, 0x34, 0x56];
    assert_eq!(read_be16(&data, 0), 0x1234);
    assert_eq!(read_be16(&data, 1), 0x3456);
}

#[test]
fn read_le16_values() {
    let data = [0x12, 0x34, 0x56];
    assert_eq!(read_le16(&data, 0), 0x3412);
    assert_eq!(read_le16(&data, 1), 0x5634);
}

#[test]
fn read_le32_values() {
    let data = [0xd4, 0xc3, 0xb2, 0xa1, 0xff];
    assert_eq!(read_le32(&data, 0), 0xa1b2c3d4);
    assert_eq!(read_le32(&data, 1), 0xffa1b2c3);
}

#[test]
fn read_extremes() {
    let data = [0xff, 0xff, 0xff, 0xff];
    assert_eq!(read_be16(&data, 0), u16::MAX);
    assert_eq!(read_le16(&data, 2), u16::MAX);
    assert_eq!(read_le32(&data, 0), u32::MAX);
}
