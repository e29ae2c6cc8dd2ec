use dns_tap::ipv4::{parse_from_ethernet, parse_raw};
use dns_tap::types::{EthernetPacket, Ipv4Error};

fn sample_packet() -> Vec<u8> {
    let mut p = vec![
        0x45, 0x00, 0x00, 0x1C, 0x00, 0x00, 0x00, 0x00, 0x40, 0x11, 0x00, 0x00,
    ];
    p.extend_from_slice(&[10, 0, 0, 1]);
    p.extend_from_slice(&[192, 168, 1, 1]);
    p.extend_from_slice(&[0xDE, 0xAD, 0xBE, 0xEF, 0xCA, 0xFE, 0x00, 0x01]);
    p
}

#[test]
fn raw_packet_decodes() {
    let p = sample_packet();
    let v = parse_raw(&p, 42).expect("valid header");
    assert_eq!(v.header_length, 20);
    assert_eq!(v.total_length, 28);
    assert_eq!(v.ttl, 0x40);
    assert_eq!(v.protocol, 0x11);
    assert_eq!(v.source_address, "10.0.0.1");
    assert_eq!(v.destination_address, "192.168.1.1");
    assert_eq!(v.payload, p[20..].to_vec());
    assert_eq!(v.size, 28);
    assert_eq!(v.timestamp, 42);
    assert!(v.source_mac.is_none());
    assert!(v.destination_mac.is_none());
}

#[test]
fn ethernet_packet_carries_addresses() {
    let frame = EthernetPacket {
        data: sample_packet(),
        source_mac: "aa:bb:cc:dd:ee:ff".to_string(),
        destination_mac: "11:22:33:44:55:66".to_string(),
        timestamp: 99,
    };
    let v = parse_from_ethernet(&frame).expect("valid header");
    assert_eq!(v.source_mac.as_deref(), Some("aa:bb:cc:dd:ee:ff"));
    assert_eq!(v.destination_mac.as_deref(), Some("11:22:33:44:55:66"));
    assert_eq!(v.timestamp, 99);
}

#[test]
fn empty_frame_rejected() {
    let frame = EthernetPacket {
        data: Vec::new(),
        source_mac: "aa:bb:cc:dd:ee:ff".to_string(),
        destination_mac: "11:22:33:44:55:66".to_string(),
        timestamp: 0,
    };
    assert_eq!(parse_from_ethernet(&frame).unwrap_err(), Ipv4Error::EmptyPayload);
}

#[test]
fn short_packet_rejected() {
    let p = vec![0x45u8; 12];
    assert_eq!(parse_raw(&p, 0).unwrap_err(), Ipv4Error::PayloadTooShort);
}

#[test]
fn bad_total_length_rejected() {
    let mut p = sample_packet();
    // declare a total length longer than the packet
    p[2] = 0x00;
    p[3] = 0xFF;
    assert_eq!(parse_raw(&p, 0).unwrap_err(), Ipv4Error::InvalidTotalLength);
    // declare a total length shorter than the header
    p[3] = 0x10;
    assert_eq!(parse_raw(&p, 0).unwrap_err(), Ipv4Error::InvalidTotalLength);
}
