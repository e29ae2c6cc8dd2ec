use dns_tap::classify::{BoundedChannel, Metrics, UDPProcessor, UdpTable};
use dns_tap::tables::{SocksProcessor, SocksTable, SshProcessor, SshTable, TcpProcessor, TcpTable};
use dns_tap::types::{Datagram, Dhcpv4Record, L7SessionTag, SocksTunnel, SshSession, TcpSegment};

fn datagram(payload: Vec<u8>, tags: Vec<L7SessionTag>) -> Datagram {
    Datagram {
        source_mac: None,
        destination_mac: None,
        source_address: "192.0.2.1".to_string(),
        destination_address: "192.0.2.2".to_string(),
        source_port: 5353,
        destination_port: 53,
        payload,
        timestamp: 1_700_000_000_000_000,
        tags,
    }
}

fn dns_query_payload() -> Vec<u8> {
    let mut p = vec![0x12, 0x34, 0x01, 0x00, 0x00, 0x01, 0x00, 0x00, 0, 0, 0, 0];
    p.extend_from_slice(&[0x01, 0x61, 0x04, 0x74, 0x65, 0x73, 0x74, 0x00, 0x00, 0x01, 0x00, 0x01]);
    p
}

fn processor() -> UDPProcessor {
    UDPProcessor::new(
        BoundedChannel::new(16),
        BoundedChannel::new(16),
        Metrics::new(),
        UdpTable::new(),
    )
}

#[test]
fn classifier_routes_dns_payload() {
    let mut proc = processor();
    proc.process(datagram(dns_query_payload(), Vec::new()), None);
    assert_eq!(proc.dns_pipeline.items.len(), 1);
    assert_eq!(proc.dhcpv4_pipeline.items.len(), 0);
    assert_eq!(proc.udp_table.datagrams.len(), 1);
    assert_eq!(proc.metrics.tag_and_route_timer.len(), 1);
    let registered = &proc.udp_table.datagrams[0];
    assert_eq!(
        registered.tags,
        vec![L7SessionTag::Dns, L7SessionTag::Unencrypted]
    );
    assert_eq!(proc.dns_pipeline.items[0].transaction_id, Some(0x1234));
    assert_eq!(proc.dns_pipeline.items[0].size, 24);
}

#[test]
fn classifier_routes_dhcp_record() {
    let mut proc = processor();
    let record = Dhcpv4Record { transaction_id: 7, estimated_size: 240 };
    assert_eq!(record.estimate_struct_size(), 240);
    proc.process(datagram(vec![0u8; 200], Vec::new()), Some(record));
    assert_eq!(proc.dns_pipeline.items.len(), 0);
    assert_eq!(proc.dhcpv4_pipeline.items.len(), 1);
    assert_eq!(proc.dhcpv4_pipeline.items[0].transaction_id, 7);
    assert_eq!(proc.udp_table.datagrams.len(), 1);
    assert_eq!(
        proc.udp_table.datagrams[0].tags,
        vec![L7SessionTag::Dhcpv4, L7SessionTag::Unencrypted]
    );
}

#[test]
fn classifier_ignores_unknown_payload() {
    let mut proc = processor();
    proc.process(datagram(vec![0xFFu8; 200], Vec::new()), None);
    assert_eq!(proc.dns_pipeline.items.len(), 0);
    assert_eq!(proc.dhcpv4_pipeline.items.len(), 0);
    assert_eq!(proc.udp_table.datagrams.len(), 1);
    assert!(proc.udp_table.datagrams[0].tags.is_empty());
    assert_eq!(proc.metrics.tag_and_route_timer.len(), 1);
}

#[test]
fn classifier_keeps_existing_tags() {
    let mut proc = processor();
    proc.process(
        datagram(dns_query_payload(), vec![L7SessionTag::Unencrypted]),
        None,
    );
    let registered = &proc.udp_table.datagrams[0];
    assert_eq!(
        registered.tags,
        vec![
            L7SessionTag::Unencrypted,
            L7SessionTag::Dns,
            L7SessionTag::Unencrypted
        ]
    );
}

#[test]
fn metric_name_is_stable() {
    assert_eq!(
        Metrics::tag_and_route_metric_name(),
        "processors.udp.timer.tag_and_route"
    );
}

#[test]
fn classifier_records_one_sample_per_datagram() {
    let mut proc = processor();
    proc.process(datagram(dns_query_payload(), Vec::new()), None);
    proc.process(datagram(vec![1, 2, 3], Vec::new()), None);
    proc.process(datagram(vec![0u8; 64], Vec::new()), None);
    assert_eq!(proc.metrics.tag_and_route_timer.len(), 3);
    assert_eq!(proc.udp_table.datagrams.len(), 3);
}

#[test]
fn full_channel_drops_and_counts() {
    let mut proc = UDPProcessor::new(
        BoundedChannel::new(1),
        BoundedChannel::new(16),
        Metrics::new(),
        UdpTable::new(),
    );
    proc.process(datagram(dns_query_payload(), Vec::new()), None);
    proc.process(datagram(dns_query_payload(), Vec::new()), None);
    assert_eq!(proc.dns_pipeline.items.len(), 1);
    assert_eq!(proc.dns_pipeline.dropped, 1);
    // the datagram is still tagged and registered
    assert_eq!(proc.udp_table.datagrams.len(), 2);
    assert_eq!(
        proc.udp_table.datagrams[1].tags,
        vec![L7SessionTag::Dns, L7SessionTag::Unencrypted]
    );
}

#[test]
fn socks_processor_registers_tunnel() {
    let mut proc = SocksProcessor::new(Metrics::new(), SocksTable::new());
    proc.process(SocksTunnel {
        source_address: "192.0.2.1".to_string(),
        destination_address: "192.0.2.9".to_string(),
        source_port: 1080,
        destination_port: 4444,
        timestamp: 5,
    });
    assert_eq!(proc.table.tunnels.len(), 1);
    assert_eq!(proc.table.tunnels[0].source_port, 1080);
}

#[test]
fn ssh_processor_registers_session() {
    let mut proc = SshProcessor::new(Metrics::new(), SshTable::new());
    proc.process(SshSession {
        source_address: "192.0.2.1".to_string(),
        destination_address: "192.0.2.9".to_string(),
        source_port: 50022,
        destination_port: 22,
        timestamp: 6,
    });
    assert_eq!(proc.table.sessions.len(), 1);
    assert_eq!(proc.table.sessions[0].destination_port, 22);
}

#[test]
fn tcp_processor_registers_segment() {
    let mut proc = TcpProcessor::new(TcpTable::new());
    proc.process(TcpSegment {
        source_address: "192.0.2.1".to_string(),
        destination_address: "192.0.2.9".to_string(),
        source_port: 1234,
        destination_port: 80,
        payload: vec![1, 2, 3],
        timestamp: 7,
    });
    proc.process(TcpSegment {
        source_address: "192.0.2.1".to_string(),
        destination_address: "192.0.2.9".to_string(),
        source_port: 1234,
        destination_port: 80,
        payload: vec![4],
        timestamp: 8,
    });
    assert_eq!(proc.tcp_table.segments.len(), 2);
    assert_eq!(proc.tcp_table.segments[1].payload, vec![4]);
}
