use vstd::prelude::*;
use crate::types::{EthernetPacket, IPv4Packet, Ipv4Error};
use crate::wire::{u16_be, read_u16_be, ipv4_text, ipv4_bytes, push_dec_u8, lemma_dec_u8_ascii};
use crate::text::utf8_lossy;
use crate::dns::opt_str_matches;
use vstd::slice::{slice_subrange, slice_to_vec};

verus! {

/// The header length in bytes declared by the first header byte.
pub open spec fn ipv4_header_len(p: Seq<u8>) -> int {
    (p[0] as int % 16) * 4
}

/// The total length declared by bytes two and three.
pub open spec fn ipv4_total_len(p: Seq<u8>) -> int {
    u16_be(p, 2)
}

/// A packet shorter than its own header or than the minimum header.
pub open spec fn ipv4_too_short(p: Seq<u8>) -> bool {
    p.len() < ipv4_header_len(p) || p.len() < 20
}

/// A declared total length outside the header-to-packet range.
pub open spec fn ipv4_bad_total(p: Seq<u8>) -> bool {
    ipv4_total_len(p) < ipv4_header_len(p) || ipv4_total_len(p) > p.len()
}

/// The fields a decoded IPv4 packet carries from its bytes.
pub open spec fn ipv4_packet_matches(r: IPv4Packet, p: Seq<u8>) -> bool {
    &&& r.header_length == ipv4_header_len(p)
    &&& r.total_length == ipv4_total_len(p)
    &&& r.ttl == p[8]
    &&& r.protocol == p[9]
    &&& r.source_address@ == ipv4_text(p[12], p[13], p[14], p[15])
    &&& r.destination_address@ == ipv4_text(p[16], p[17], p[18], p[19])
    &&& r.payload@ == p.subrange(ipv4_header_len(p), p.len() as int)
    &&& r.size == p.len() as u32
}

/// How an IPv4 decoding result corresponds to the packet bytes and the
/// envelope handed in.
pub open spec fn ipv4_result_matches(
    r: Result<IPv4Packet, Ipv4Error>,
    p: Seq<u8>,
    sm: Option<Seq<char>>,
    dm: Option<Seq<char>>,
    ts: i64,
) -> bool {
    if ipv4_too_short(p) {
        r matches Err(e) && e == Ipv4Error::PayloadTooShort
    } else if ipv4_bad_total(p) {
        r matches Err(e) && e == Ipv4Error::InvalidTotalLength
    } else {
        r matches Ok(v) && ipv4_packet_matches(v, p) && opt_str_matches(v.source_mac, sm)
            && opt_str_matches(v.destination_mac, dm) && v.timestamp == ts
    }
}

/// The dotted-quad text of four bytes at `i`.
fn ipv4_address_text(packet: &[u8], i: usize) -> (r: String)
    requires
        i + 4 <= packet@.len(),
    ensures
        r@ == ipv4_text(packet@[i as int], packet@[i + 1], packet@[i + 2], packet@[i + 3]),
{
    let mut out: Vec<u8> = Vec::new();
    push_dec_u8(&mut out, packet[i]);
    out.push(46);
    push_dec_u8(&mut out, packet[i + 1]);
    out.push(46);
    push_dec_u8(&mut out, packet[i + 2]);
    out.push(46);
    push_dec_u8(&mut out, packet[i + 3]);
    proof {
        lemma_dec_u8_ascii(packet@[i as int]);
        lemma_dec_u8_ascii(packet@[i + 1]);
        lemma_dec_u8_ascii(packet@[i + 2]);
        lemma_dec_u8_ascii(packet@[i + 3]);
        assert(out@ =~= ipv4_bytes(
            packet@[i as int],
            packet@[i + 1],
            packet@[i + 2],
            packet@[i + 3],
        ));
        assert(forall|t: int| 0 <= t < out@.len() ==> out@[t] < 128);
    }
    let s = utf8_lossy(out.as_slice());
    proof {
        assert(s@ =~= ipv4_text(packet@[i as int], packet@[i + 1], packet@[i + 2], packet@[i + 3]));
    }
    s
}

/// Decodes one raw IPv4 packet: header length from the first byte,
/// bounds and total-length checks, then the fixed header fields and the
/// payload behind the header.
fn parse(
    packet: &[u8],
    source_mac: Option<String>,
    destination_mac: Option<String>,
    timestamp: i64,
) -> (r: Result<IPv4Packet, Ipv4Error>)
    requires
        packet@.len() >= 1,
    ensures
        ipv4_result_matches(
            r,
            packet@,
            match source_mac {
                Some(s) => Some(s@),
                None => None,
            },
            match destination_mac {
                Some(s) => Some(s@),
                None => None,
            },
            timestamp,
        ),
{
    let header_length = ((packet[0] % 16) as usize) * 4;
    if packet.len() < header_length || packet.len() < 20 {
        return Err(Ipv4Error::PayloadTooShort);
    }
    let total_length = read_u16_be(packet, 2) as usize;
    if total_length < header_length || total_length > packet.len() {
        return Err(Ipv4Error::InvalidTotalLength);
    }
    let ttl = packet[8];
    let protocol = packet[9];
    let source_address = ipv4_address_text(packet, 12);
    let destination_address = ipv4_address_text(packet, 16);
    let payload = slice_to_vec(slice_subrange(packet, header_length, packet.len()));
    let size = packet.len();
    Ok(
        IPv4Packet {
            source_mac,
            destination_mac,
            header_length,
            total_length,
            source_address,
            destination_address,
            ttl,
            protocol,
            payload,
            size: #[verifier::truncate] (size as u32),
            timestamp,
        },
    )
}

/// Decodes the IPv4 packet inside an Ethernet frame, copying the
/// frame's hardware addresses into the result.
pub fn parse_from_ethernet(packet: &EthernetPacket) -> (r: Result<IPv4Packet, Ipv4Error>)
    ensures
        packet.data@.len() == 0 ==> (r matches Err(e) && e == Ipv4Error::EmptyPayload),
        packet.data@.len() >= 1 ==> ipv4_result_matches(
            r,
            packet.data@,
            Some(packet.source_mac@),
            Some(packet.destination_mac@),
            packet.timestamp,
        ),
{
    if packet.data.len() == 0 {
        return Err(Ipv4Error::EmptyPayload);
    }
    parse(
        packet.data.as_slice(),
        Some(packet.source_mac.clone()),
        Some(packet.destination_mac.clone()),
        packet.timestamp,
    )
}

/// Decodes a raw IPv4 packet that carries no link-layer envelope.
pub fn parse_raw(packet: &[u8], timestamp: i64) -> (r: Result<IPv4Packet, Ipv4Error>)
    requires
        packet@.len() >= 1,
    ensures
        ipv4_result_matches(r, packet@, None, None, timestamp),
{
    parse(packet, None, None, timestamp)
}

} // verus!
