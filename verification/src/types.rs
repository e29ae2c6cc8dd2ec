use vstd::prelude::*;

verus! {

/// Layer-7 protocol family labels attached to classified datagrams.
#[derive(Clone, Copy, Debug, PartialEq, Eq, Structural)]
pub enum L7SessionTag {
    Dns,
    Dhcpv4,
    Unencrypted,
}

/// Whether a DNS message is a query or a query response (the QR flag).
#[derive(Clone, Copy, Debug, PartialEq, Eq, Structural)]
pub enum DNSType {
    Query,
    QueryResponse,
}

/// The DNS resource record types the decoder maps; any other wire value
/// is rejected as unknown.
#[derive(Clone, Copy, Debug, PartialEq, Eq, Structural)]
pub enum DNSDataType {
    A,
    NS,
    CNAME,
    SOA,
    PTR,
    MX,
    TXT,
    AAAA,
    SRV,
    OPT,
    Any,
}

/// The DNS classes the decoder maps; any other wire value is rejected.
#[derive(Clone, Copy, Debug, PartialEq, Eq, Structural)]
pub enum DNSClass {
    IN,
    CS,
    CH,
    HS,
}

/// Error kinds produced inside the core while decoding wire data or
/// touching shared state.
#[derive(Clone, Copy, Debug, PartialEq, Eq, Structural)]
pub enum DNSError {
    /// Input slice shorter than required.
    TruncatedPayload,
    /// Question or answer count exceeds the accepted cap.
    CountTooLarge,
    /// Resource record type not in the enumeration.
    UnknownType,
    /// Class not in the enumeration.
    UnknownClass,
    /// A label's declared length runs past the slice.
    TruncatedLabel,
    /// A compression pointer targets an offset outside the payload.
    OffsetOutOfRange,
    /// A compression pointer offset was followed twice within one name.
    RecursivePointer,
    /// Type-specific RDATA decode failure.
    BadRdata,
    /// A shared-state lock could not be acquired.
    LockUnavailable,
}

/// One decoded DNS question or answer record.
///
/// `entropy` carries the Shannon entropy of the text of interest as the
/// raw bits of the IEEE-754 single-precision value; the library stores
/// the number without interpreting it.
#[derive(Debug)]
pub struct DNSData {
    pub name: String,
    pub name_etld: Option<String>,
    pub dns_type: DNSDataType,
    pub class: DNSClass,
    pub value: Option<String>,
    pub value_etld: Option<String>,
    pub entropy: Option<u32>,
    pub ttl: Option<u32>,
}

/// A structured DNS message decoded from one UDP payload.
pub struct DNSMessage {
    pub transaction_id: Option<u16>,
    pub source_mac: Option<String>,
    pub destination_mac: Option<String>,
    pub source_address: String,
    pub destination_address: String,
    pub source_port: u16,
    pub destination_port: u16,
    pub dns_type: DNSType,
    pub question_count: u16,
    pub answer_count: u16,
    pub queries: Option<Vec<DNSData>>,
    pub responses: Option<Vec<DNSData>>,
    pub size: u32,
    pub timestamp: i64,
}

/// One received UDP payload with its envelope; timestamps are
/// microseconds since the Unix epoch.
pub struct Datagram {
    pub source_mac: Option<String>,
    pub destination_mac: Option<String>,
    pub source_address: String,
    pub destination_address: String,
    pub source_port: u16,
    pub destination_port: u16,
    pub payload: Vec<u8>,
    pub timestamp: i64,
    pub tags: Vec<L7SessionTag>,
}

/// A decoded DHCPv4 record as handed over by its own parser; the
/// classifier only routes it and reads its estimated size.
pub struct Dhcpv4Record {
    pub transaction_id: u32,
    pub estimated_size: u32,
}

impl Dhcpv4Record {
    pub fn estimate_struct_size(&self) -> (r: u32)
        ensures
            r == self.estimated_size,
    {
        self.estimated_size
    }
}

/// One observed SOCKS tunnel, as registered into the SOCKS table.
pub struct SocksTunnel {
    pub source_address: String,
    pub destination_address: String,
    pub source_port: u16,
    pub destination_port: u16,
    pub timestamp: i64,
}

/// One observed SSH session, as registered into the SSH table.
pub struct SshSession {
    pub source_address: String,
    pub destination_address: String,
    pub source_port: u16,
    pub destination_port: u16,
    pub timestamp: i64,
}

/// One reassembled TCP segment, as registered into the TCP table.
pub struct TcpSegment {
    pub source_address: String,
    pub destination_address: String,
    pub source_port: u16,
    pub destination_port: u16,
    pub payload: Vec<u8>,
    pub timestamp: i64,
}

/// An Ethernet frame as handed over by the link-layer assembler.
pub struct EthernetPacket {
    pub data: Vec<u8>,
    pub source_mac: String,
    pub destination_mac: String,
    pub timestamp: i64,
}

/// A decoded IPv4 packet.
#[derive(Debug)]
pub struct IPv4Packet {
    pub source_mac: Option<String>,
    pub destination_mac: Option<String>,
    pub header_length: usize,
    pub total_length: usize,
    pub source_address: String,
    pub destination_address: String,
    pub ttl: u8,
    pub protocol: u8,
    pub payload: Vec<u8>,
    pub size: u32,
    pub timestamp: i64,
}

/// Error kinds produced by the IPv4 header parser.
#[derive(Clone, Copy, Debug, PartialEq, Eq, Structural)]
pub enum Ipv4Error {
    EmptyPayload,
    PayloadTooShort,
    InvalidTotalLength,
}

} // verus!
