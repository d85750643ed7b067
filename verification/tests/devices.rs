use a4keyboard::color::Color;
use a4keyboard::devices::DeviceInfo;
use a4keyboard::devices::bloody::Bloody;
use a4keyboard::devices::bloody::make_prepared_control_packet;
use a4keyboard::devices::from_hex;
use a4keyboard::devices::parse_device_name;
use a4keyboard::parse;

// A descriptor exposing usage page 0xFF52 / usage 0x0210, as the supported
// keyboard's vendor collection does.
const VENDOR_DESCRIPTOR: &[u8] = &[
    0x06, 0x52, 0xff, 0x0a, 0x10, 0x02, 0xa1, 0x01, 0x85, 0x07, 0x19, 0x01, 0x29, 0x3f, 0x15,
    0x00, 0x26, 0xff, 0x00, 0x75, 0x08, 0x95, 0x3f, 0x81, 0x00, 0xc0,
];

// A plain keyboard descriptor without the vendor usage.
const PLAIN_DESCRIPTOR: &[u8] = &[
    0x05, 0x01, 0x09, 0x06, 0xa1, 0x01, 0x15, 0x00, 0x25, 0x01, 0x75, 0x01, 0x95, 0x08, 0x81,
    0x02, 0xc0,
];

#[test]
fn from_hex_reads_device_name_fields() {
    assert_eq!(from_hex(b"0003"), Some(0x0003));
    assert_eq!(from_hex(b"09DA"), Some(0x09DA));
    assert_eq!(from_hex(b"fa10"), Some(0xFA10));
    assert_eq!(from_hex(b"ffff"), Some(0xFFFF));
    assert_eq!(from_hex(b"0"), Some(0));
}

#[test]
fn from_hex_rejects_bad_and_oversized_values() {
    assert_eq!(from_hex(b""), None);
    assert_eq!(from_hex(b"+"), None);
    assert_eq!(from_hex(b"xyzw"), None);
    assert_eq!(from_hex(b"10000"), None);
    assert_eq!(from_hex(b"ffffffffffffffff"), None);
    assert_eq!(from_hex(b"-1"), None);
    assert_eq!(from_hex(b"-0"), Some(0));
    assert_eq!(from_hex(b"+a"), Some(10));
}

#[test]
fn parse_device_name_splits_the_ids() {
    assert_eq!(
        parse_device_name(b"0003:09DA:FA10.0001"),
        Some((0x09DA, 0xFA10, 0x0001))
    );
    assert_eq!(parse_device_name(b"0003:09DA:FA10.001"), None);
    assert_eq!(parse_device_name(b"0003:09DA:FAZZ.0001"), None);
    assert_eq!(parse_device_name(b""), None);
}

#[test]
fn probe_accepts_the_supported_keyboard() {
    let info = DeviceInfo {
        hid: 1,
        vid: 0x09da,
        pid: 0xfa10,
        report_descriptor: parse(VENDOR_DESCRIPTOR).unwrap(),
    };
    assert!(Bloody::probe(&info));
}

#[test]
fn probe_rejects_other_ids_and_descriptors() {
    let wrong_vid = DeviceInfo {
        hid: 1,
        vid: 0x1234,
        pid: 0xfa10,
        report_descriptor: parse(VENDOR_DESCRIPTOR).unwrap(),
    };
    assert!(!Bloody::probe(&wrong_vid));
    let wrong_pid = DeviceInfo {
        hid: 1,
        vid: 0x09da,
        pid: 0x5678,
        report_descriptor: parse(VENDOR_DESCRIPTOR).unwrap(),
    };
    assert!(!Bloody::probe(&wrong_pid));
    let wrong_descriptor = DeviceInfo {
        hid: 1,
        vid: 0x09da,
        pid: 0xfa10,
        report_descriptor: parse(PLAIN_DESCRIPTOR).unwrap(),
    };
    assert!(!Bloody::probe(&wrong_descriptor));
}

#[test]
fn prepared_control_packet_layout() {
    let buf = make_prepared_control_packet(0x0B);
    assert_eq!(buf.len(), 64);
    assert_eq!(&buf[0..4], &[0x07, 0x03, 0x06, 0x0B]);
    assert!(buf[4..].iter().all(|&b| b == 0));
}

#[test]
fn take_control_packets_toggle_the_flag_byte() {
    let (first, second) = Bloody::take_control_packets(true);
    assert_eq!(&first[0..4], &[0x07, 0x03, 0x06, 0x01]);
    assert_eq!(&second[0..4], &[0x07, 0x03, 0x06, 0x00]);
    assert_eq!(second[8], 0x01);
    let (_, released) = Bloody::take_control_packets(false);
    assert_eq!(released[8], 0x00);
}

#[test]
fn set_colors_packets_place_each_key() {
    let mut colors = [Color { r: 0, g: 0, b: 0 }; 104];
    colors[0] = Color { r: 0x11, g: 0x22, b: 0x33 };
    colors[57] = Color { r: 0x44, g: 0x55, b: 0x66 };
    colors[58] = Color { r: 0x77, g: 0x88, b: 0x99 };
    colors[103] = Color { r: 0xAA, g: 0xBB, b: 0xCC };
    let packets = Bloody::set_colors_packets(&colors);
    assert_eq!(packets.len(), 6);
    // Send order: red line 1, red line 2, green 1, green 2, blue 1, blue 2.
    assert_eq!(&packets[0][0..4], &[0x07, 0x03, 0x06, 0x07]);
    assert_eq!(&packets[1][0..4], &[0x07, 0x03, 0x06, 0x08]);
    assert_eq!(&packets[2][0..4], &[0x07, 0x03, 0x06, 0x09]);
    assert_eq!(&packets[3][0..4], &[0x07, 0x03, 0x06, 0x0A]);
    assert_eq!(&packets[4][0..4], &[0x07, 0x03, 0x06, 0x0B]);
    assert_eq!(&packets[5][0..4], &[0x07, 0x03, 0x06, 0x0C]);
    // Key 0 sits at byte 6 of the first line's packets.
    assert_eq!(packets[0][6], 0x11);
    assert_eq!(packets[2][6], 0x22);
    assert_eq!(packets[4][6], 0x33);
    // Key 57 is the last byte of the first line.
    assert_eq!(packets[0][63], 0x44);
    assert_eq!(packets[2][63], 0x55);
    assert_eq!(packets[4][63], 0x66);
    // Key 58 starts the second line.
    assert_eq!(packets[1][6], 0x77);
    assert_eq!(packets[3][6], 0x88);
    assert_eq!(packets[5][6], 0x99);
    // Key 103 sits at byte 6 + 45 of the second line.
    assert_eq!(packets[1][51], 0xAA);
    assert_eq!(packets[3][51], 0xBB);
    assert_eq!(packets[5][51], 0xCC);
    // Every packet is 64 bytes.
    assert!(packets.iter().all(|p| p.len() == 64));
}
