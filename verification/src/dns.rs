use vstd::prelude::*;
use crate::types::{DNSData, DNSDataType, DNSClass, DNSError, DNSMessage, DNSType, Datagram};
use crate::wire::{
    u16_be, u32_be, read_u16_be, read_u32_be, spec_is_pointer, ipv4_bytes, ipv4_text,
    ipv6_text, ipv6_bytes, groups_of, hex_u16, join_hex, zero_run_len, best_zero_run,
    is_ip_chars, is_ip_address, push_dec_u8, push_hex_u16, lemma_dec_u8_ascii,
};
use crate::text::{
    etld_of, etld_plus_one, entropy_bits_of, shannon_entropy_bits, utf8_lossy, now_micros,
};
use crate::name::{
    NameScan, scan_seg, scan_name, scan_label, name_text, parse_name, parse_label,
    MAX_POINTER_TARGETS,
};
use vstd::slice::slice_subrange;

verus! {

/// The resource record type a wire value maps to, if any.
pub open spec fn dns_type_of(n: int) -> Option<DNSDataType> {
    if n == 1 {
        Some(DNSDataType::A)
    } else if n == 2 {
        Some(DNSDataType::NS)
    } else if n == 5 {
        Some(DNSDataType::CNAME)
    } else if n == 6 {
        Some(DNSDataType::SOA)
    } else if n == 12 {
        Some(DNSDataType::PTR)
    } else if n == 15 {
        Some(DNSDataType::MX)
    } else if n == 16 {
        Some(DNSDataType::TXT)
    } else if n == 28 {
        Some(DNSDataType::AAAA)
    } else if n == 33 {
        Some(DNSDataType::SRV)
    } else if n == 41 {
        Some(DNSDataType::OPT)
    } else if n == 255 {
        Some(DNSDataType::Any)
    } else {
        None
    }
}

/// Maps a wire value to a resource record type.
pub fn dns_type_from(n: u16) -> (r: Option<DNSDataType>)
    ensures
        r == dns_type_of(n as int),
{
    if n == 1 {
        Some(DNSDataType::A)
    } else if n == 2 {
        Some(DNSDataType::NS)
    } else if n == 5 {
        Some(DNSDataType::CNAME)
    } else if n == 6 {
        Some(DNSDataType::SOA)
    } else if n == 12 {
        Some(DNSDataType::PTR)
    } else if n == 15 {
        Some(DNSDataType::MX)
    } else if n == 16 {
        Some(DNSDataType::TXT)
    } else if n == 28 {
        Some(DNSDataType::AAAA)
    } else if n == 33 {
        Some(DNSDataType::SRV)
    } else if n == 41 {
        Some(DNSDataType::OPT)
    } else if n == 255 {
        Some(DNSDataType::Any)
    } else {
        None
    }
}

/// The class a wire value maps to, if any.
pub open spec fn dns_class_of(n: int) -> Option<DNSClass> {
    if n == 1 {
        Some(DNSClass::IN)
    } else if n == 2 {
        Some(DNSClass::CS)
    } else if n == 3 {
        Some(DNSClass::CH)
    } else if n == 4 {
        Some(DNSClass::HS)
    } else {
        None
    }
}

/// Maps a wire value to a class.
pub fn dns_class_from(n: u16) -> (r: Option<DNSClass>)
    ensures
        r == dns_class_of(n as int),
{
    if n == 1 {
        Some(DNSClass::IN)
    } else if n == 2 {
        Some(DNSClass::CS)
    } else if n == 3 {
        Some(DNSClass::CH)
    } else if n == 4 {
        Some(DNSClass::HS)
    } else {
        None
    }
}

/// The record types whose decoded value is text-like, so that entropy
/// is recorded over it.
pub open spec fn is_text_like(t: DNSDataType) -> bool {
    t == DNSDataType::CNAME || t == DNSDataType::NS || t == DNSDataType::PTR || t
        == DNSDataType::MX || t == DNSDataType::TXT
}

/// Tells whether a record type's value is text-like.
pub fn text_like(t: DNSDataType) -> (r: bool)
    ensures
        r == is_text_like(t),
{
    match t {
        DNSDataType::CNAME => true,
        DNSDataType::NS => true,
        DNSDataType::PTR => true,
        DNSDataType::MX => true,
        DNSDataType::TXT => true,
        _ => false,
    }
}

/// The suffix lookup applied to a decoded string: suppressed for
/// literal IP addresses.
pub open spec fn etld_for(s: Seq<char>) -> Option<Seq<char>> {
    if is_ip_chars(s) {
        None
    } else {
        etld_of(s)
    }
}

/// One decoded record at the specification level.
pub struct DNSDataV {
    pub name: Seq<char>,
    pub name_etld: Option<Seq<char>>,
    pub dns_type: DNSDataType,
    pub class: DNSClass,
    pub value: Option<Seq<char>>,
    pub value_etld: Option<Seq<char>>,
    pub entropy: Option<u32>,
    pub ttl: Option<u32>,
}

/// Whether two optional strings hold the same text.
pub open spec fn opt_str_matches(a: Option<String>, b: Option<Seq<char>>) -> bool {
    match (a, b) {
        (Some(x), Some(y)) => x@ == y,
        (None, None) => true,
        _ => false,
    }
}

/// Whether a decoded record carries exactly the fields of its
/// specification-level counterpart.
pub open spec fn data_matches(d: DNSData, v: DNSDataV) -> bool {
    &&& d.name@ == v.name
    &&& opt_str_matches(d.name_etld, v.name_etld)
    &&& d.dns_type == v.dns_type
    &&& d.class == v.class
    &&& opt_str_matches(d.value, v.value)
    &&& opt_str_matches(d.value_etld, v.value_etld)
    &&& d.entropy == v.entropy
    &&& d.ttl == v.ttl
}

/// Outcome of scanning one question or answer element.
pub enum ElemScan {
    Done { consumed: int, data: DNSDataV },
    Fail { error: DNSError },
}

/// Outcome of decoding one RDATA window.
pub enum ValScan {
    Val { value: Option<Seq<char>> },
    Fail { error: DNSError },
}

/// How an element-decoding result corresponds to its specification
/// scan.
pub open spec fn elem_result_matches(r: Result<(usize, DNSData), DNSError>, s: ElemScan) -> bool {
    match s {
        ElemScan::Done { consumed, data } => match r {
            Ok(v) => v.0 == consumed && data_matches(v.1, data),
            Err(_) => false,
        },
        ElemScan::Fail { error } => match r {
            Ok(_) => false,
            Err(e) => e == error,
        },
    }
}

/// Scans one question element at `qs`: its name, then two bytes of
/// type and two of class, each mapped through its enumeration. The
/// name's entropy is always recorded for questions.
pub open spec fn scan_query_elem(p: Seq<u8>, qs: int) -> ElemScan {
    match scan_name(p, qs, qs, p.len() as int) {
        NameScan::Fail { error } => ElemScan::Fail { error },
        NameScan::Done { consumed, bytes } => {
            let name = name_text(bytes);
            if qs + consumed + 4 > p.len() {
                ElemScan::Fail { error: DNSError::TruncatedPayload }
            } else {
                match dns_type_of(u16_be(p, qs + consumed)) {
                    None => ElemScan::Fail { error: DNSError::UnknownType },
                    Some(ty) => match dns_class_of(u16_be(p, qs + consumed + 2)) {
                        None => ElemScan::Fail { error: DNSError::UnknownClass },
                        Some(cl) => ElemScan::Done {
                            consumed: consumed + 4,
                            data: DNSDataV {
                                name,
                                name_etld: etld_for(name),
                                dns_type: ty,
                                class: cl,
                                value: None,
                                value_etld: None,
                                entropy: Some(entropy_bits_of(name)),
                                ttl: None,
                            },
                        },
                    },
                }
            }
        },
    }
}

/// Decodes one RDATA window by record type.
pub open spec fn scan_rdata(p: Seq<u8>, ty: DNSDataType, rs: int, dl: int) -> ValScan {
    match ty {
        DNSDataType::A => if dl != 4 {
            ValScan::Fail { error: DNSError::BadRdata }
        } else {
            ValScan::Val { value: Some(ipv4_text(p[rs], p[rs + 1], p[rs + 2], p[rs + 3])) }
        },
        DNSDataType::AAAA => if dl != 16 {
            ValScan::Fail { error: DNSError::BadRdata }
        } else {
            ValScan::Val { value: Some(ipv6_text(p.subrange(rs, rs + 16))) }
        },
        DNSDataType::CNAME | DNSDataType::NS | DNSDataType::PTR | DNSDataType::TXT => match
            scan_name(p, 0, rs, rs + dl) {
            NameScan::Done { consumed: _, bytes } => ValScan::Val {
                value: Some(name_text(bytes)),
            },
            NameScan::Fail { error } => ValScan::Fail { error },
        },
        DNSDataType::MX => if dl < 3 {
            ValScan::Fail { error: DNSError::BadRdata }
        } else {
            match scan_name(p, 0, rs + 2, rs + dl) {
                NameScan::Done { consumed: _, bytes } => ValScan::Val {
                    value: Some(name_text(bytes)),
                },
                NameScan::Fail { error } => ValScan::Fail { error },
            }
        },
        _ => ValScan::Val { value: None },
    }
}

/// Scans one answer element at `as_`: its name (pointers resolved
/// against the whole payload), type, class, TTL and RDATA length, then
/// the RDATA window. The cursor advances by exactly ten plus the
/// declared RDATA length from the post-name position.
pub open spec fn scan_answer_elem(p: Seq<u8>, as_: int) -> ElemScan {
    match scan_label(p, 0, as_, p.len() as int) {
        NameScan::Fail { error } => ElemScan::Fail { error },
        NameScan::Done { consumed, bytes } => {
            let name = name_text(bytes);
            if as_ + consumed + 11 > p.len() {
                ElemScan::Fail { error: DNSError::TruncatedPayload }
            } else {
                let ttl = u32_be(p, as_ + consumed + 4);
                let dl = u16_be(p, as_ + consumed + 8);
                let rs = as_ + consumed + 10;
                match dns_type_of(u16_be(p, as_ + consumed)) {
                    None => ElemScan::Fail { error: DNSError::UnknownType },
                    Some(ty) => match dns_class_of(u16_be(p, as_ + consumed + 2)) {
                        None => ElemScan::Fail { error: DNSError::UnknownClass },
                        Some(cl) => if rs + dl > p.len() {
                            ElemScan::Fail { error: DNSError::TruncatedPayload }
                        } else {
                            match scan_rdata(p, ty, rs, dl) {
                                ValScan::Fail { error } => ElemScan::Fail { error },
                                ValScan::Val { value } => ElemScan::Done {
                                    consumed: consumed + 10 + dl,
                                    data: DNSDataV {
                                        name,
                                        name_etld: etld_for(name),
                                        dns_type: ty,
                                        class: cl,
                                        value,
                                        value_etld: match value {
                                            Some(v) => etld_for(v),
                                            None => None,
                                        },
                                        entropy: match value {
                                            Some(v) => if is_text_like(ty) {
                                                Some(entropy_bits_of(v))
                                            } else {
                                                None
                                            },
                                            None => None,
                                        },
                                        ttl: Some(ttl as u32),
                                    },
                                },
                            }
                        },
                    },
                }
            }
        },
    }
}

/// A successful name scan consumes at most the bytes of its own
/// region.
proof fn lemma_scan_consumed(
    p: Seq<u8>,
    base: int,
    seg_start: int,
    pos: int,
    end: int,
    visited: Seq<u16>,
    acc: Seq<u8>,
    fuel: nat,
)
    requires
        seg_start <= pos <= end,
    ensures
        scan_seg(p, base, seg_start, pos, end, visited, acc, fuel) matches NameScan::Done {
            consumed,
            bytes: _,
        } ==> 0 <= consumed <= end - seg_start,
    decreases fuel, end - pos,
{
    if pos >= end {
    } else {
        let b = p[pos];
        if b == 0 {
        } else if spec_is_pointer(b) {
        } else {
            let l = b as int;
            if pos + 1 + l > end {
            } else {
                let acc2 = if acc.len() > 0 {
                    acc.push(46u8) + p.subrange(pos + 1, pos + 1 + l)
                } else {
                    p.subrange(pos + 1, pos + 1 + l)
                };
                lemma_scan_consumed(p, base, seg_start, pos + 1 + l, end, visited, acc2, fuel);
            }
        }
    }
}

/// Copies an optional string.
fn clone_opt_string(o: &Option<String>) -> (r: Option<String>)
    ensures
        match (r, *o) {
            (Some(a), Some(b)) => a@ == b@,
            (None, None) => true,
            _ => false,
        },
{
    match o {
        Some(s) => Some(s.clone()),
        None => None,
    }
}

/// Decodes a 4-byte A RDATA window into its dotted-quad text.
pub fn parse_ipv4(data: &[u8]) -> (r: Result<String, DNSError>)
    ensures
        data@.len() == 4 ==> (r matches Ok(s) && s@ == ipv4_text(
            data@[0],
            data@[1],
            data@[2],
            data@[3],
        )),
        data@.len() != 4 ==> (r matches Err(e) && e == DNSError::BadRdata),
{
    if data.len() != 4 {
        return Err(DNSError::BadRdata);
    }
    let mut out: Vec<u8> = Vec::new();
    push_dec_u8(&mut out, data[0]);
    out.push(46);
    push_dec_u8(&mut out, data[1]);
    out.push(46);
    push_dec_u8(&mut out, data[2]);
    out.push(46);
    push_dec_u8(&mut out, data[3]);
    proof {
        lemma_dec_u8_ascii(data@[0]);
        lemma_dec_u8_ascii(data@[1]);
        lemma_dec_u8_ascii(data@[2]);
        lemma_dec_u8_ascii(data@[3]);
        assert(out@ =~= ipv4_bytes(data@[0], data@[1], data@[2], data@[3]));
        assert(forall|i: int| 0 <= i < out@.len() ==> out@[i] < 128);
    }
    let s = utf8_lossy(out.as_slice());
    proof {
        assert(s@ =~= ipv4_text(data@[0], data@[1], data@[2], data@[3]));
    }
    Ok(s)
}

/// The run of zero groups starting at `i`.
fn run_at(g: &Vec<u16>, i: usize) -> (r: usize)
    requires
        g@.len() == 8,
        i <= 8,
    ensures
        r == zero_run_len(g@, i as int),
{
    let mut j: usize = i;
    while j < 8 && g[j] == 0
        invariant
            g@.len() == 8,
            i <= j <= 8,
            forall|k: int| i <= k < j ==> g@[k] == 0,
        decreases 8 - j,
    {
        j = j + 1;
    }
    proof {
        lemma_zero_run(g@, i as int, j as int);
    }
    j - i
}

/// The zero run at `i` ends exactly at the first group that is not
/// zero.
proof fn lemma_zero_run(g: Seq<u16>, i: int, j: int)
    requires
        0 <= i <= j <= g.len(),
        forall|k: int| i <= k < j ==> g[k] == 0,
        j == g.len() || g[j] != 0,
    ensures
        zero_run_len(g, i) == j - i,
    decreases j - i,
{
    if i == j {
    } else {
        lemma_zero_run(g, i + 1, j);
    }
}

/// All lowercase hexadecimal digits are ASCII.
proof fn lemma_hex_u16_ascii(v: u16)
    ensures
        forall|i: int| 0 <= i < hex_u16(v).len() ==> 48 <= #[trigger] hex_u16(v)[i] && hex_u16(
            v,
        )[i] < 128,
{
}

/// A colon join of ASCII digit groups is ASCII.
proof fn lemma_join_hex_ascii(g: Seq<u16>, i: int, j: int)
    requires
        i <= j,
    ensures
        forall|k: int| 0 <= k < join_hex(g, i, j).len() ==> #[trigger] join_hex(g, i, j)[k]
            < 128,
    decreases j - i,
{
    if i >= j {
    } else if i + 1 == j {
        lemma_hex_u16_ascii(g[i]);
        assert(join_hex(g, i, j) == hex_u16(g[i]));
    } else {
        lemma_hex_u16_ascii(g[i]);
        lemma_join_hex_ascii(g, i + 1, j);
        let h = hex_u16(g[i]);
        let rest = join_hex(g, i + 1, j);
        let whole = h + seq![58u8] + rest;
        assert forall|k: int| 0 <= k < whole.len() implies whole[k] < 128 by {
            if k < h.len() {
                assert(whole[k] == h[k]);
            } else if k == h.len() {
                assert(whole[k] == 58);
            } else {
                assert(whole[k] == rest[k - h.len() - 1]);
            }
        }
        assert(join_hex(g, i, j) == whole);
    }
}

/// Decodes a 16-byte AAAA RDATA window into its canonical colon-hex
/// text.
pub fn parse_ipv6(data: &[u8]) -> (r: Result<String, DNSError>)
    ensures
        data@.len() == 16 ==> (r matches Ok(s) && s@ == ipv6_text(data@)),
        data@.len() != 16 ==> (r matches Err(e) && e == DNSError::BadRdata),
{
    if data.len() != 16 {
        return Err(DNSError::BadRdata);
    }
    let mut groups: Vec<u16> = Vec::new();
    let mut i: usize = 0;
    while i < 8
        invariant
            data@.len() == 16,
            i <= 8,
            groups@.len() == i,
            forall|k: int| 0 <= k < i ==> groups@[k] == groups_of(data@)[k],
        decreases 8 - i,
    {
        let hi = data[2 * i] as u16;
        let lo = data[2 * i + 1] as u16;
        groups.push(hi * 256 + lo);
        i = i + 1;
    }
    proof {
        assert(groups@ =~= groups_of(data@));
    }
    let mut bs: usize = 0;
    let mut bl: usize = 0;
    let mut j: usize = 0;
    while j < 8
        invariant
            groups@ == groups_of(data@),
            groups@.len() == 8,
            j <= 8,
            bs + bl <= 8,
            best_zero_run(groups@, 0, 0, 0) == best_zero_run(groups@, j as int, bs as int, bl as int),
        decreases 8 - j,
    {
        let rl = run_at(&groups, j);
        proof {
            lemma_zero_run_bound(groups@, j as int);
        }
        if rl > bl {
            bs = j;
            bl = rl;
        }
        j = j + 1;
    }
    let mut out: Vec<u8> = Vec::new();
    if bl < 2 {
        let mut k: usize = 0;
        while k < 8
            invariant
                groups@ == groups_of(data@),
                groups@.len() == 8,
                k <= 8,
                out@ + join_hex(groups@, k as int, 8) == join_hex(groups@, 0, 8),
                forall|t: int| 0 <= t < out@.len() ==> out@[t] < 128,
            decreases 8 - k,
        {
            let ghost out0 = out@;
            push_hex_u16(&mut out, groups[k]);
            if k + 1 < 8 {
                out.push(58);
            }
            proof {
                lemma_hex_u16_ascii(groups@[k as int]);
                if k + 1 < 8 {
                    assert(out@ =~= out0 + hex_u16(groups@[k as int]) + seq![58u8]);
                    assert(out@ + join_hex(groups@, k + 1, 8) =~= out0 + join_hex(
                        groups@,
                        k as int,
                        8,
                    ));
                } else {
                    assert(out@ + join_hex(groups@, k + 1, 8) =~= out0 + join_hex(
                        groups@,
                        k as int,
                        8,
                    ));
                }
            }
            k = k + 1;
        }
        proof {
            assert(out@ =~= out@ + join_hex(groups@, 8, 8));
            assert(out@ =~= ipv6_bytes(groups_of(data@)));
        }
    } else {
        let mut k: usize = 0;
        while k < bs
            invariant
                groups@ == groups_of(data@),
                groups@.len() == 8,
                k <= bs,
                bs + bl <= 8,
                2 <= bl,
                out@ + join_hex(groups@, k as int, bs as int) == join_hex(groups@, 0, bs as int),
                forall|t: int| 0 <= t < out@.len() ==> out@[t] < 128,
            decreases bs - k,
        {
            let ghost out0 = out@;
            push_hex_u16(&mut out, groups[k]);
            if k + 1 < bs {
                out.push(58);
            }
            proof {
                lemma_hex_u16_ascii(groups@[k as int]);
                if k + 1 < bs {
                    assert(out@ =~= out0 + hex_u16(groups@[k as int]) + seq![58u8]);
                }
                assert(out@ + join_hex(groups@, k + 1, bs as int) =~= out0 + join_hex(
                    groups@,
                    k as int,
                    bs as int,
                ));
            }
            k = k + 1;
        }
        proof {
            assert(out@ =~= out@ + join_hex(groups@, bs as int, bs as int));
            assert(out@ =~= join_hex(groups@, 0, bs as int));
        }
        let ghost prefix = out@;
        out.push(58);
        out.push(58);
        let mut k2: usize = bs + bl;
        while k2 < 8
            invariant
                groups@ == groups_of(data@),
                groups@.len() == 8,
                bs + bl <= k2 <= 8,
                prefix == join_hex(groups@, 0, bs as int),
                out@ + join_hex(groups@, k2 as int, 8) == prefix + seq![58u8, 58u8] + join_hex(
                    groups@,
                    bs + bl,
                    8,
                ),
                forall|t: int| 0 <= t < out@.len() ==> out@[t] < 128,
            decreases 8 - k2,
        {
            let ghost out0 = out@;
            push_hex_u16(&mut out, groups[k2]);
            if k2 + 1 < 8 {
                out.push(58);
            }
            proof {
                lemma_hex_u16_ascii(groups@[k2 as int]);
                if k2 + 1 < 8 {
                    assert(out@ =~= out0 + hex_u16(groups@[k2 as int]) + seq![58u8]);
                }
                assert(out@ + join_hex(groups@, k2 + 1, 8) =~= out0 + join_hex(
                    groups@,
                    k2 as int,
                    8,
                ));
            }
            k2 = k2 + 1;
        }
        proof {
            assert(out@ =~= out@ + join_hex(groups@, 8, 8));
            assert(out@ =~= ipv6_bytes(groups_of(data@)));
        }
    }
    let s = utf8_lossy(out.as_slice());
    proof {
        assert(s@ =~= ipv6_text(data@));
    }
    Ok(s)
}

/// A zero run never runs past the end of the groups.
proof fn lemma_zero_run_bound(g: Seq<u16>, i: int)
    requires
        0 <= i <= g.len(),
    ensures
        0 <= zero_run_len(g, i) <= g.len() - i,
    decreases g.len() - i,
{
    if 0 <= i < g.len() && g[i] == 0 {
        lemma_zero_run_bound(g, i + 1);
    }
}

/// Decodes one question element starting at `start`: name, type and
/// class, with the name's suffix lookup and entropy.
pub fn parse_query_element(payload: &[u8], start: usize) -> (r: Result<(usize, DNSData), DNSError>)
    requires
        start <= payload@.len(),
    ensures
        elem_result_matches(r, scan_query_elem(payload@, start as int)),
        r matches Ok(v) ==> v.0 <= payload@.len() - start,
{
    let n = payload.len();
    let (consumed, name) = match parse_name(payload, start, start, n) {
        Ok(v) => v,
        Err(e) => {
            return Err(e);
        },
    };
    proof {
        lemma_scan_consumed(
            payload@,
            start as int,
            start as int,
            start as int,
            n as int,
            Seq::empty(),
            Seq::empty(),
            MAX_POINTER_TARGETS as nat,
        );
    }
    let name_etld = if !is_ip_address(name.as_str()) {
        etld_plus_one(name.as_str())
    } else {
        None
    };
    let rem = n - start;
    if rem < 4 || consumed > rem - 4 {
        return Err(DNSError::TruncatedPayload);
    }
    let ty = match dns_type_from(read_u16_be(payload, start + consumed)) {
        Some(t) => t,
        None => {
            return Err(DNSError::UnknownType);
        },
    };
    let cl = match dns_class_from(read_u16_be(payload, start + consumed + 2)) {
        Some(c) => c,
        None => {
            return Err(DNSError::UnknownClass);
        },
    };
    let ent = shannon_entropy_bits(name.as_str());
    Ok(
        (
            consumed + 4,
            DNSData {
                name,
                name_etld,
                dns_type: ty,
                class: cl,
                value: None,
                value_etld: None,
                entropy: Some(ent),
                ttl: None,
            },
        ),
    )
}

/// Decodes one answer element starting at `start`: name, fixed fields
/// and the typed RDATA window, with suffix lookups and entropy over the
/// decoded value where the type is text-like.
pub fn parse_answer_element(payload: &[u8], start: usize) -> (r: Result<
    (usize, DNSData),
    DNSError,
>)
    requires
        start < payload@.len(),
    ensures
        elem_result_matches(r, scan_answer_elem(payload@, start as int)),
        r matches Ok(v) ==> v.0 <= payload@.len() - start,
{
    let n = payload.len();
    let (consumed, name) = match parse_label(payload, 0, start, n) {
        Ok(v) => v,
        Err(e) => {
            return Err(e);
        },
    };
    proof {
        if !spec_is_pointer(payload@[start as int]) {
            lemma_scan_consumed(
                payload@,
                0,
                start as int,
                start as int,
                n as int,
                Seq::empty(),
                Seq::empty(),
                MAX_POINTER_TARGETS as nat,
            );
        }
    }
    let name_etld = if !is_ip_address(name.as_str()) {
        etld_plus_one(name.as_str())
    } else {
        None
    };
    let rem = n - start;
    if rem < 11 || consumed > rem - 11 {
        return Err(DNSError::TruncatedPayload);
    }
    let ttl = read_u32_be(payload, start + consumed + 4);
    let dl = read_u16_be(payload, start + consumed + 8) as usize;
    let rs = start + consumed + 10;
    let ty = match dns_type_from(read_u16_be(payload, start + consumed)) {
        Some(t) => t,
        None => {
            return Err(DNSError::UnknownType);
        },
    };
    let cl = match dns_class_from(read_u16_be(payload, start + consumed + 2)) {
        Some(c) => c,
        None => {
            return Err(DNSError::UnknownClass);
        },
    };
    if dl > n - rs {
        return Err(DNSError::TruncatedPayload);
    }
    let value: Option<String> = match ty {
        DNSDataType::A => match parse_ipv4(slice_subrange(payload, rs, rs + dl)) {
            Ok(s) => Some(s),
            Err(e) => {
                return Err(e);
            },
        },
        DNSDataType::AAAA => match parse_ipv6(slice_subrange(payload, rs, rs + dl)) {
            Ok(s) => Some(s),
            Err(e) => {
                return Err(e);
            },
        },
        DNSDataType::CNAME | DNSDataType::NS | DNSDataType::PTR | DNSDataType::TXT => match
            parse_name(payload, 0, rs, rs + dl) {
            Ok(v) => Some(v.1),
            Err(e) => {
                return Err(e);
            },
        },
        DNSDataType::MX => {
            if dl < 3 {
                return Err(DNSError::BadRdata);
            }
            match parse_name(payload, 0, rs + 2, rs + dl) {
                Ok(v) => Some(v.1),
                Err(e) => {
                    return Err(e);
                },
            }
        },
        _ => None,
    };
    let has_entropy = text_like(ty);
    let (entropy, value_etld) = match &value {
        Some(v) => {
            let e = if has_entropy {
                Some(shannon_entropy_bits(v.as_str()))
            } else {
                None
            };
            let et = if !is_ip_address(v.as_str()) {
                etld_plus_one(v.as_str())
            } else {
                None
            };
            (e, et)
        },
        None => (None, None),
    };
    Ok(
        (
            (rs + dl) - start,
            DNSData {
                name,
                name_etld,
                class: cl,
                dns_type: ty,
                value,
                value_etld,
                entropy,
                ttl: Some(ttl),
            },
        ),
    )
}

} // verus!

use vstd::pervasive::arbitrary;

verus! {

/// The decoded record of a successful element scan.
pub open spec fn elem_data(s: ElemScan) -> DNSDataV {
    match s {
        ElemScan::Done { consumed: _, data } => data,
        ElemScan::Fail { error: _ } => arbitrary(),
    }
}

/// Scans `n` consecutive elements of one section, each preceded by the
/// check that at least five bytes remain. Returns the cursor after the
/// section and the decoded records, or nothing if any element fails.
pub open spec fn scan_section(p: Seq<u8>, cursor: int, n: nat, answers: bool) -> Option<
    (int, Seq<DNSDataV>),
>
    decreases n,
{
    if n == 0 {
        Some((cursor, Seq::empty()))
    } else if p.len() < cursor + 5 {
        None
    } else {
        let e = if answers {
            scan_answer_elem(p, cursor)
        } else {
            scan_query_elem(p, cursor)
        };
        match e {
            ElemScan::Fail { error: _ } => None,
            ElemScan::Done { consumed, data } => match scan_section(
                p,
                cursor + consumed,
                (n - 1) as nat,
                answers,
            ) {
                None => None,
                Some(rest) => Some((rest.0, seq![data] + rest.1)),
            },
        }
    }
}

/// Decodes `count` elements of one section starting at `start`.
fn parse_section(payload: &[u8], start: usize, count: u16, answers: bool) -> (r: Option<
    (usize, Vec<DNSData>),
>)
    requires
        start <= payload@.len(),
    ensures
        match scan_section(payload@, start as int, count as nat, answers) {
            None => r is None,
            Some(rest) => (r matches Some(v) && v.0 == rest.0 && v.0 <= payload@.len()
                && v.1@.len() == count && v.1@.len() == rest.1.len() && (forall|k: int|
                0 <= k < rest.1.len() ==> data_matches(#[trigger] v.1@[k], rest.1[k]))),
        },
{
    let n = payload.len();
    let mut cursor: usize = start;
    let mut list: Vec<DNSData> = Vec::new();
    let ghost mut gacc = Seq::<DNSDataV>::empty();
    let mut i: u16 = 0;
    while i < count
        invariant
            start <= cursor <= n,
            n == payload@.len(),
            i <= count,
            list@.len() == i,
            gacc.len() == i,
            forall|k: int| 0 <= k < i ==> data_matches(#[trigger] list@[k], gacc[k]),
            scan_section(payload@, start as int, count as nat, answers) == (match scan_section(
                payload@,
                cursor as int,
                (count - i) as nat,
                answers,
            ) {
                None => None::<(int, Seq<DNSDataV>)>,
                Some(rest) => Some((rest.0, gacc + rest.1)),
            }),
        decreases count - i,
    {
        if n - cursor < 5 {
            return None;
        }
        let res = if answers {
            parse_answer_element(payload, cursor)
        } else {
            parse_query_element(payload, cursor)
        };
        match res {
            Err(_) => {
                return None;
            },
            Ok((c, d)) => {
                let ghost e = if answers {
                    scan_answer_elem(payload@, cursor as int)
                } else {
                    scan_query_elem(payload@, cursor as int)
                };
                let ghost gd = elem_data(e);
                list.push(d);
                let ghost old_gacc = gacc;
                proof {
                    gacc = gacc.push(gd);
                    let inner = scan_section(
                        payload@,
                        cursor + c,
                        (count - i - 1) as nat,
                        answers,
                    );
                    match inner {
                        None => {},
                        Some(rest) => {
                            assert(old_gacc + (seq![gd] + rest.1) =~= gacc + rest.1);
                        },
                    }
                }
                cursor = cursor + c;
                i = i + 1;
            },
        }
    }
    proof {
        assert(gacc + Seq::<DNSDataV>::empty() =~= gacc);
    }
    Some((cursor, list))
}

/// The specification-level decoding of one UDP payload as a DNS
/// message: the header checks, then the question and answer sections.
pub open spec fn scan_message(p: Seq<u8>) -> Option<(Seq<DNSDataV>, Seq<DNSDataV>)> {
    if p.len() < crate::MIN_DNS_PAYLOAD {
        None
    } else {
        let qc = u16_be(p, 4);
        let ac = u16_be(p, 6);
        if qc > crate::MAX_DNS_RECORD_COUNT || ac > crate::MAX_DNS_RECORD_COUNT {
            None
        } else if qc == 0 && ac == 0 {
            None
        } else {
            match scan_section(p, 12, qc as nat, false) {
                None => None,
                Some(q) => match scan_section(p, q.0, ac as nat, true) {
                    None => None,
                    Some(a) => Some((q.1, a.1)),
                },
            }
        }
    }
}

/// Whether two optional strings hold the same text.
pub open spec fn opt_string_eq(a: Option<String>, b: Option<String>) -> bool {
    match (a, b) {
        (Some(x), Some(y)) => x@ == y@,
        (None, None) => true,
        _ => false,
    }
}

/// How a decoded message corresponds to the datagram it was decoded
/// from: header fields from the header bytes, sections matching the
/// specification scan, envelope fields copied from the datagram.
pub open spec fn dns_message_matches(m: DNSMessage, udp: Datagram) -> bool {
    let p = udp.payload@;
    let qc = u16_be(p, 4);
    let ac = u16_be(p, 6);
    match scan_message(p) {
        None => false,
        Some(secs) => {
            &&& m.transaction_id == (if u16_be(p, 0) == 0 {
                None::<u16>
            } else {
                Some(u16_be(p, 0) as u16)
            })
            &&& m.dns_type == (if p[2] >= 128 {
                DNSType::QueryResponse
            } else {
                DNSType::Query
            })
            &&& m.question_count == qc
            &&& m.answer_count == ac
            &&& (qc > 0 ==> (m.queries matches Some(v) && v@.len() == qc && (forall|i: int|
                0 <= i < v@.len() ==> data_matches(#[trigger] v@[i], secs.0[i]))))
            &&& (qc == 0 ==> m.queries is None)
            &&& (ac > 0 ==> (m.responses matches Some(v) && v@.len() == ac && (forall|i: int|
                0 <= i < v@.len() ==> data_matches(#[trigger] v@[i], secs.1[i]))))
            &&& (ac == 0 ==> m.responses is None)
            &&& opt_string_eq(m.source_mac, udp.source_mac)
            &&& opt_string_eq(m.destination_mac, udp.destination_mac)
            &&& m.source_address@ == udp.source_address@
            &&& m.destination_address@ == udp.destination_address@
            &&& m.source_port == udp.source_port
            &&& m.destination_port == udp.destination_port
            &&& m.size == p.len() as u32
        },
    }
}

/// Decodes one UDP payload as a DNS message, or rejects it.
///
/// A message comes back exactly when the payload passes the header
/// checks (length, counts) and every question and answer element
/// decodes; a decoded message carries one record per counted question
/// and answer.
pub fn parse(udp: &Datagram) -> (r: Option<DNSMessage>)
    ensures
        (r is Some) == (scan_message(udp.payload@) is Some),
        r matches Some(m) ==> dns_message_matches(m, *udp),
        r matches Some(m) ==> (m.queries matches Some(v) ==> v@.len() == m.question_count),
        r matches Some(m) ==> (m.responses matches Some(v) ==> v@.len() == m.answer_count),
        r matches Some(m) ==> m.question_count <= crate::MAX_DNS_RECORD_COUNT
            && m.answer_count <= crate::MAX_DNS_RECORD_COUNT && !(m.question_count == 0
            && m.answer_count == 0),
        r matches Some(m) ==> ((m.queries is Some) == (m.question_count > 0) && (m.responses
            is Some) == (m.answer_count > 0)),
{
    let payload = udp.payload.as_slice();
    let n = payload.len();
    if n < crate::MIN_DNS_PAYLOAD {
        return None;
    }
    let transaction_id = read_u16_be(payload, 0);
    let dns_type = if payload[2] >= 128 {
        DNSType::QueryResponse
    } else {
        DNSType::Query
    };
    let question_count = read_u16_be(payload, 4);
    let answer_count = read_u16_be(payload, 6);
    if question_count > crate::MAX_DNS_RECORD_COUNT || answer_count > crate::MAX_DNS_RECORD_COUNT {
        return None;
    }
    if question_count == 0 && answer_count == 0 {
        return None;
    }
    let (c1, qlist) = match parse_section(payload, 12, question_count, false) {
        Some(v) => v,
        None => {
            return None;
        },
    };
    let (_c2, alist) = match parse_section(payload, c1, answer_count, true) {
        Some(v) => v,
        None => {
            return None;
        },
    };
    let queries = if question_count > 0 {
        Some(qlist)
    } else {
        None
    };
    let responses = if answer_count > 0 {
        Some(alist)
    } else {
        None
    };
    Some(
        DNSMessage {
            transaction_id: if transaction_id == 0 {
                None
            } else {
                Some(transaction_id)
            },
            source_mac: clone_opt_string(&udp.source_mac),
            destination_mac: clone_opt_string(&udp.destination_mac),
            source_address: udp.source_address.clone(),
            destination_address: udp.destination_address.clone(),
            source_port: udp.source_port,
            destination_port: udp.destination_port,
            dns_type,
            question_count,
            answer_count,
            queries,
            responses,
            size: #[verifier::truncate] (n as u32),
            timestamp: now_micros(),
        },
    )
}

} // verus!
