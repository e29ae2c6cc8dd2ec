use dns_tap::types::{DNSClass, DNSDataType, DNSError, DNSType, Datagram};
use dns_tap::dns::{parse, parse_answer_element, parse_ipv4, parse_ipv6};
use dns_tap::name::{parse_label, parse_name};
use dns_tap::wire::is_ip_address;

fn datagram(payload: Vec<u8>) -> Datagram {
    Datagram {
        source_mac: Some("aa:bb:cc:dd:ee:ff".to_string()),
        destination_mac: None,
        source_address: "10.0.0.1".to_string(),
        destination_address: "10.0.0.2".to_string(),
        source_port: 53,
        destination_port: 40000,
        payload,
        timestamp: 1_700_000_000_000_000,
        tags: Vec::new(),
    }
}

fn header(tid: u16, flags: u16, qd: u16, an: u16) -> Vec<u8> {
    let mut v = Vec::new();
    v.extend_from_slice(&tid.to_be_bytes());
    v.extend_from_slice(&flags.to_be_bytes());
    v.extend_from_slice(&qd.to_be_bytes());
    v.extend_from_slice(&an.to_be_bytes());
    v.extend_from_slice(&[0, 0, 0, 0]);
    v
}

#[test]
fn minimal_a_query() {
    let mut p = header(0x1234, 0x0100, 1, 0);
    p.extend_from_slice(&[0x01, 0x61, 0x04, 0x74, 0x65, 0x73, 0x74, 0x00, 0x00, 0x01, 0x00, 0x01]);
    let m = parse(&datagram(p)).expect("valid query");
    assert_eq!(m.transaction_id, Some(0x1234));
    assert_eq!(m.dns_type, DNSType::Query);
    assert_eq!(m.question_count, 1);
    assert_eq!(m.answer_count, 0);
    assert!(m.responses.is_none());
    let qs = m.queries.as_ref().expect("queries present");
    assert_eq!(qs.len(), 1);
    assert_eq!(qs[0].name, "a.test");
    assert_eq!(qs[0].dns_type, DNSDataType::A);
    assert_eq!(qs[0].class, DNSClass::IN);
    assert!(qs[0].entropy.is_some());
    assert_eq!(qs[0].name_etld.as_deref(), psl::domain_str("a.test"));
    assert!(qs[0].value.is_none());
    assert!(qs[0].ttl.is_none());
    assert_eq!(m.size, 24);
}

#[test]
fn question_entropy_matches_library() {
    let mut p = header(0x1234, 0x0100, 1, 0);
    p.extend_from_slice(&[0x01, 0x61, 0x04, 0x74, 0x65, 0x73, 0x74, 0x00, 0x00, 0x01, 0x00, 0x01]);
    let m = parse(&datagram(p)).expect("valid query");
    let qs = m.queries.unwrap();
    let expected = entropy::shannon_entropy("a.test".as_bytes());
    assert_eq!(qs[0].entropy, Some(expected.to_bits()));
    assert_eq!(f32::from_bits(qs[0].entropy.unwrap()), expected);
}

#[test]
fn short_payloads_rejected() {
    assert!(parse(&datagram(Vec::new())).is_none());
    assert!(parse(&datagram(vec![0u8; 11])).is_none());
    assert!(parse(&datagram(vec![0u8; 12])).is_none());
    assert!(parse(&datagram(vec![0u8; 13])).is_none());
}

#[test]
fn zero_count_message_rejected() {
    let mut p = header(0x0001, 0x0000, 0, 0);
    p.push(0x00);
    assert_eq!(p.len(), 13);
    assert!(parse(&datagram(p)).is_none());
}

#[test]
fn question_count_cap() {
    let mut p = header(0x0001, 0x0000, 512, 0);
    for _ in 0..512 {
        p.extend_from_slice(&[0x00, 0x00, 0x01, 0x00, 0x01]);
    }
    let m = parse(&datagram(p)).expect("512 questions accepted");
    assert_eq!(m.question_count, 512);
    assert_eq!(m.queries.unwrap().len(), 512);

    let mut over = header(0x0001, 0x0000, 513, 0);
    over.push(0x00);
    assert!(parse(&datagram(over)).is_none());
}

#[test]
fn answer_count_cap() {
    let mut p = header(0x0001, 0x8000, 0, 512);
    for _ in 0..512 {
        p.extend_from_slice(&[0x00, 0x00, 0x06, 0x00, 0x01, 0, 0, 0, 0, 0x00, 0x00]);
    }
    // an answer element needs one byte beyond its fixed fields; the
    // trailing byte is dropped silently
    p.push(0x00);
    let m = parse(&datagram(p)).expect("512 answers accepted");
    assert_eq!(m.answer_count, 512);
    let rs = m.responses.unwrap();
    assert_eq!(rs.len(), 512);
    assert!(rs[0].value.is_none());
    assert!(rs[0].entropy.is_none());
    assert_eq!(rs[0].ttl, Some(0));

    let mut over = header(0x0001, 0x8000, 0, 513);
    over.push(0x00);
    assert!(parse(&datagram(over)).is_none());
}

#[test]
fn oversize_question_count() {
    let mut p = header(0x0001, 0x0000, 0x0201, 0);
    p.push(0x00);
    assert!(parse(&datagram(p)).is_none());
}

#[test]
fn pointer_to_offset_zero_accepted() {
    // transaction id starts with a zero byte, so a name pointing at
    // offset zero decodes as the empty name
    let mut p = header(0x0034, 0x8000, 0, 1);
    p.extend_from_slice(&[0xC0, 0x00, 0x00, 0x01, 0x00, 0x01, 0, 0, 0, 60, 0x00, 0x04]);
    p.extend_from_slice(&[1, 2, 3, 4]);
    let m = parse(&datagram(p)).expect("pointer to offset zero accepted");
    let rs = m.responses.unwrap();
    assert_eq!(rs[0].name, "");
    assert_eq!(rs[0].value.as_deref(), Some("1.2.3.4"));
    assert_eq!(rs[0].ttl, Some(60));
}

#[test]
fn repeated_pointer_offset_is_recursive() {
    let p = vec![0xC0, 0x02, 0xC0, 0x02];
    let r = parse_name(&p, 0, 0, 4);
    assert_eq!(r, Err(DNSError::RecursivePointer));
}

#[test]
fn pointer_cycle_rejected() {
    let mut p = header(0xAAAA, 0x8000, 0, 1);
    p.extend_from_slice(&[0xC0, 0x0C, 0x00, 0x01, 0x00, 0x01, 0, 0, 0, 0, 0x00, 0x00]);
    assert!(parse(&datagram(p)).is_none());
}

#[test]
fn truncated_label_rejected() {
    let p = vec![0x05, 0x61];
    assert_eq!(parse_name(&p, 0, 0, 2), Err(DNSError::TruncatedLabel));
}

#[test]
fn pointer_out_of_range_rejected() {
    let p = vec![0xC0, 0x50, 0x00];
    assert_eq!(parse_name(&p, 0, 0, 3), Err(DNSError::OffsetOutOfRange));
    assert_eq!(parse_label(&p, 0, 0, 3), Err(DNSError::OffsetOutOfRange));
}

#[test]
fn a_record_bad_rdlength() {
    for dl in [3u8, 5u8] {
        let mut p = header(0x0001, 0x8000, 0, 1);
        p.extend_from_slice(&[0x00, 0x00, 0x01, 0x00, 0x01, 0, 0, 0, 0, 0x00, dl]);
        for _ in 0..dl {
            p.push(0x07);
        }
        let r = parse_answer_element(&p, 12);
        assert_eq!(r.unwrap_err(), DNSError::BadRdata);
        let mut q = header(0x0001, 0x8000, 0, 1);
        q.extend_from_slice(&[0x00, 0x00, 0x01, 0x00, 0x01, 0, 0, 0, 0, 0x00, dl]);
        for _ in 0..dl {
            q.push(0x07);
        }
        assert!(parse(&datagram(q)).is_none());
    }
}

#[test]
fn mx_record_bad_rdlength() {
    let mut p = header(0x0001, 0x8000, 0, 1);
    p.extend_from_slice(&[0x00, 0x00, 0x0F, 0x00, 0x01, 0, 0, 0, 0, 0x00, 0x02, 0x00, 0x05]);
    let r = parse_answer_element(&p, 12);
    assert_eq!(r.unwrap_err(), DNSError::BadRdata);
    assert!(parse(&datagram(p)).is_none());
}

#[test]
fn unknown_type_rejected() {
    let mut p = header(0x0001, 0x0100, 1, 0);
    // type 0x0063 is not in the enumeration
    p.extend_from_slice(&[0x01, 0x61, 0x00, 0x00, 0x63, 0x00, 0x01]);
    assert!(parse(&datagram(p)).is_none());
}

#[test]
fn unknown_class_rejected() {
    let mut p = header(0x0001, 0x0100, 1, 0);
    p.extend_from_slice(&[0x01, 0x61, 0x00, 0x00, 0x01, 0x00, 0x63]);
    assert!(parse(&datagram(p)).is_none());
}

#[test]
fn cname_pointer_compression() {
    let mut p = header(0xBEEF, 0x8000, 1, 1);
    // question: www.example.com A IN
    p.extend_from_slice(&[
        0x03, b'w', b'w', b'w', 0x07, b'e', b'x', b'a', b'm', b'p', b'l', b'e', 0x03, b'c', b'o',
        b'm', 0x00, 0x00, 0x01, 0x00, 0x01,
    ]);
    // answer: name is a pointer to offset 12, CNAME whose RDATA holds a
    // label and a pointer back into the question name
    p.extend_from_slice(&[0xC0, 0x0C, 0x00, 0x05, 0x00, 0x01, 0, 0, 0, 60, 0x00, 0x06]);
    p.extend_from_slice(&[0x03, b'f', b'o', b'o', 0xC0, 0x10]);
    let m = parse(&datagram(p)).expect("compressed response accepted");
    assert_eq!(m.dns_type, DNSType::QueryResponse);
    let qs = m.queries.as_ref().unwrap();
    let rs = m.responses.as_ref().unwrap();
    assert_eq!(qs[0].name, "www.example.com");
    assert_eq!(rs[0].name, qs[0].name);
    let value = rs[0].value.as_deref().unwrap();
    assert_eq!(value, "foo.example.com");
    assert!(value.ends_with("example.com"));
    assert!(rs[0].entropy.is_some());
    assert_eq!(rs[0].value_etld.as_deref(), psl::domain_str("foo.example.com"));
    assert_eq!(qs[0].name_etld.as_deref(), psl::domain_str("www.example.com"));
}

#[test]
fn aaaa_response() {
    let mut p = header(0x0001, 0x8000, 0, 1);
    p.extend_from_slice(&[0x00, 0x00, 0x1C, 0x00, 0x01, 0, 0, 0, 60, 0x00, 0x10]);
    p.extend_from_slice(&[
        0x20, 0x01, 0x0D, 0xB8, 0, 0, 0, 0, 0, 0, 0, 0, 0, 0, 0x00, 0x01,
    ]);
    let m = parse(&datagram(p)).expect("AAAA response accepted");
    let rs = m.responses.unwrap();
    assert_eq!(rs[0].value.as_deref(), Some("2001:db8::1"));
    assert!(rs[0].entropy.is_none());
    assert!(rs[0].value_etld.is_none());
}

#[test]
fn names_fold_to_lower_case() {
    let mut p = header(0x0001, 0x0100, 1, 0);
    p.extend_from_slice(&[0x03, b'W', b'W', b'W', 0x04, b'T', b'e', b'S', b't', 0x00]);
    p.extend_from_slice(&[0x00, 0x01, 0x00, 0x01]);
    let m = parse(&datagram(p)).expect("uppercase name accepted");
    assert_eq!(m.queries.unwrap()[0].name, "www.test");
}

#[test]
fn invalid_utf8_replaced() {
    let p = vec![0x02, 0xFF, 0x61, 0x00];
    let (consumed, name) = parse_name(&p, 0, 0, 4).expect("lossy decode");
    assert_eq!(consumed, 4);
    assert_eq!(name, "\u{FFFD}a");
}

#[test]
fn bare_pointer_answer_name_consumes_two_bytes() {
    let mut p = header(0x00AB, 0x8000, 0, 1);
    p.extend_from_slice(&[0xC0, 0x00, 0x00, 0x06, 0x00, 0x01, 0, 0, 0, 0, 0x00, 0x00]);
    let (consumed, _) = parse_label(&p, 0, 12, p.len()).expect("bare pointer name");
    assert_eq!(consumed, 2);
}

#[test]
fn rdata_decoders_pin_exact_text() {
    assert_eq!(parse_ipv4(&[192, 168, 0, 1]).unwrap(), "192.168.0.1");
    assert_eq!(parse_ipv4(&[0, 0, 0, 0]).unwrap(), "0.0.0.0");
    assert_eq!(parse_ipv4(&[1, 2, 3]).unwrap_err(), DNSError::BadRdata);
    assert_eq!(parse_ipv6(&[0u8; 16]).unwrap(), "::");
    let mut sixteen = vec![0u8; 16];
    sixteen[15] = 1;
    assert_eq!(parse_ipv6(&sixteen).unwrap(), "::1");
    let full: Vec<u8> = vec![
        0xFE, 0x80, 0x12, 0x34, 0xAB, 0xCD, 0x00, 0x01, 0x00, 0x00, 0x00, 0x00, 0x0A, 0x0B, 0x0C,
        0x0D,
    ];
    assert_eq!(parse_ipv6(&full).unwrap(), "fe80:1234:abcd:1::a0b:c0d");
    assert_eq!(parse_ipv6(&[0u8; 4]).unwrap_err(), DNSError::BadRdata);
}

#[test]
fn ip_literal_detection() {
    assert!(is_ip_address("1.2.3.4"));
    assert!(is_ip_address("2001:db8::1"));
    assert!(is_ip_address("::"));
    assert!(!is_ip_address("example.com"));
    assert!(!is_ip_address("a.test"));
    assert!(!is_ip_address(""));
    assert!(!is_ip_address("1.2.3.4.5"));
    assert!(!is_ip_address("1..2.3.4"));
}
