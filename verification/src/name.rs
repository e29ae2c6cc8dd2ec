use vstd::prelude::*;
use vstd::set_lib::lemma_int_range;
use vstd::set_lib::lemma_len_subset;
use vstd::set_lib::set_int_range;
use crate::types::DNSError;
use crate::wire::spec_is_pointer;
use crate::text::lossy_of;
use crate::text::lower_of;
use crate::text::utf8_lossy;
use crate::text::to_lowercase;

verus! {

/// A compression pointer offset has 14 bits, so one name can follow at
/// most this many distinct pointer targets.
pub const MAX_POINTER_TARGETS: usize = 16384;

/// Outcome of scanning one DNS name: the number of bytes consumed from
/// the local cursor and the raw label bytes (sections joined by a dot),
/// or the error that stopped the scan.
pub enum NameScan {
    Done { consumed: int, bytes: Seq<u8> },
    Fail { error: DNSError },
}

/// Scans label sections from `pos` within the region `seg_start..end` of
/// `payload`. Pointer offsets are resolved relative to `base`; following
/// a pointer moves the scan to `base + offset` and widens the region to
/// the payload end. `consumed` counts bytes of the first region only:
/// once a pointer is followed it is fixed at the byte after the pointer.
pub open spec fn scan_seg(
    payload: Seq<u8>,
    base: int,
    seg_start: int,
    pos: int,
    end: int,
    visited: Seq<u16>,
    acc: Seq<u8>,
    fuel: nat,
) -> NameScan
    decreases fuel, end - pos,
{
    if pos >= end {
        NameScan::Done { consumed: pos - seg_start, bytes: acc }
    } else {
        let b = payload[pos];
        if b == 0 {
            NameScan::Done { consumed: pos + 1 - seg_start, bytes: acc }
        } else if spec_is_pointer(b) {
            if pos + 1 >= end {
                NameScan::Fail { error: DNSError::TruncatedLabel }
            } else {
                let off = (b - 192) * 256 + payload[pos + 1];
                if visited.contains(off as u16) {
                    NameScan::Fail { error: DNSError::RecursivePointer }
                } else if base + off >= payload.len() {
                    NameScan::Fail { error: DNSError::OffsetOutOfRange }
                } else if fuel == 0 {
                    NameScan::Fail { error: DNSError::RecursivePointer }
                } else {
                    match scan_seg(
                        payload,
                        base,
                        base + off,
                        base + off,
                        payload.len() as int,
                        visited.push(off as u16),
                        acc,
                        (fuel - 1) as nat,
                    ) {
                        NameScan::Done { consumed: _, bytes } => NameScan::Done {
                            consumed: pos + 2 - seg_start,
                            bytes,
                        },
                        NameScan::Fail { error } => NameScan::Fail { error },
                    }
                }
            }
        } else {
            let l = b as int;
            if pos + 1 + l > end {
                NameScan::Fail { error: DNSError::TruncatedLabel }
            } else {
                let acc2 = if acc.len() > 0 {
                    acc.push(46u8) + payload.subrange(pos + 1, pos + 1 + l)
                } else {
                    payload.subrange(pos + 1, pos + 1 + l)
                };
                scan_seg(payload, base, seg_start, pos + 1 + l, end, visited, acc2, fuel)
            }
        }
    }
}

/// Scans one whole name starting at `start`, with a fresh pointer set.
pub open spec fn scan_name(payload: Seq<u8>, base: int, start: int, end: int) -> NameScan {
    scan_seg(
        payload,
        base,
        start,
        start,
        end,
        Seq::empty(),
        Seq::empty(),
        MAX_POINTER_TARGETS as nat,
    )
}

/// Scans an answer name: a name that begins with a pointer consumes
/// exactly two bytes and is not resumed beyond the pointer.
pub open spec fn scan_label(payload: Seq<u8>, base: int, start: int, end: int) -> NameScan {
    if spec_is_pointer(payload[start]) {
        if end - start < 3 {
            NameScan::Fail { error: DNSError::TruncatedLabel }
        } else {
            let off = (payload[start] - 192) * 256 + payload[start + 1];
            if base + off >= payload.len() {
                NameScan::Fail { error: DNSError::OffsetOutOfRange }
            } else {
                match scan_name(payload, base, base + off, payload.len() as int) {
                    NameScan::Done { consumed: _, bytes } => NameScan::Done {
                        consumed: 2,
                        bytes,
                    },
                    NameScan::Fail { error } => NameScan::Fail { error },
                }
            }
        }
    } else {
        scan_name(payload, base, start, end)
    }
}

/// The text form of scanned label bytes: decoded as UTF-8 with
/// replacement, then folded to lower case.
pub open spec fn name_text(bytes: Seq<u8>) -> Seq<char> {
    lower_of(lossy_of(bytes))
}

/// How a name-decoding result corresponds to its specification scan:
/// same consumed count and the scanned bytes' text on success, the same
/// error kind on failure.
pub open spec fn name_result_matches(
    r: Result<(usize, String), DNSError>,
    s: NameScan,
) -> bool {
    match s {
        NameScan::Done { consumed, bytes } => match r {
            Ok(v) => v.0 == consumed && v.1@ == name_text(bytes),
            Err(_) => false,
        },
        NameScan::Fail { error } => match r {
            Ok(_) => false,
            Err(e) => e == error,
        },
    }
}

/// Replaces the consumed count of a successful scan once a pointer has
/// fixed it.
pub open spec fn with_consumed(r: NameScan, jumped: bool, c: int) -> NameScan {
    match r {
        NameScan::Done { consumed, bytes } => if jumped {
            NameScan::Done { consumed: c, bytes }
        } else {
            r
        },
        NameScan::Fail { error: _ } => r,
    }
}

/// A sequence of distinct 14-bit offsets can hold at most one entry per
/// offset value.
proof fn lemma_distinct_offsets_bounded(v: Seq<u16>)
    requires
        v.no_duplicates(),
        forall|i: int| 0 <= i < v.len() ==> v[i] < 16384,
    ensures
        v.len() <= 16384,
{
    let f = |x: u16| x as int;
    let m = v.map_values(f);
    assert(vstd::relations::injective(f)) by {
        assert(forall|a: u16, b: u16| #[trigger] f(a) == #[trigger] f(b) ==> a == b);
    }
    v.lemma_no_duplicates_injective(f);
    m.unique_seq_to_set();
    lemma_int_range(0, 16384);
    assert(m.to_set().subset_of(set_int_range(0, 16384))) by {
        assert forall|y: int| m.to_set().contains(y) implies set_int_range(0, 16384).contains(
            y,
        ) by {
            let i = choose|i: int| 0 <= i < m.len() && m[i] == y;
            assert(m[i] == f(v[i]));
        }
    }
    lemma_len_subset(m.to_set(), set_int_range(0, 16384));
}

/// Linear membership test on the visited-offset list.
fn contains_u16(v: &Vec<u16>, x: u16) -> (r: bool)
    ensures
        r == v@.contains(x),
{
    let mut i: usize = 0;
    while i < v.len()
        invariant
            i <= v@.len(),
            forall|j: int| 0 <= j < i ==> v@[j] != x,
        decreases v@.len() - i,
    {
        if v[i] == x {
            return true;
        }
        i += 1;
    }
    false
}

/// Decodes one DNS name from `payload`, scanning inside `start..end` and
/// resolving pointer offsets relative to `base`. Returns the number of
/// bytes consumed from `start` and the dotted, lower-cased name.
pub fn parse_name(payload: &[u8], base: usize, start: usize, end: usize) -> (r: Result<
    (usize, String),
    DNSError,
>)
    requires
        base <= start <= end <= payload@.len(),
    ensures
        name_result_matches(r, scan_name(payload@, base as int, start as int, end as int)),
{
    let ghost target = scan_name(payload@, base as int, start as int, end as int);
    let mut pos: usize = start;
    let mut seg_start: usize = start;
    let mut end_cur: usize = end;
    let mut visited: Vec<u16> = Vec::new();
    let mut acc: Vec<u8> = Vec::new();
    let mut consumed: usize = 0;
    let mut jumped = false;
    loop
        invariant
            target == scan_name(payload@, base as int, start as int, end as int),
            base <= seg_start <= pos <= end_cur <= payload@.len(),
            visited@.no_duplicates(),
            forall|i: int| 0 <= i < visited@.len() ==> visited@[i] < 16384,
            visited@.len() <= 16384,
            jumped ==> consumed <= payload@.len() + 1,
            target == with_consumed(
                scan_seg(
                    payload@,
                    base as int,
                    seg_start as int,
                    pos as int,
                    end_cur as int,
                    visited@,
                    acc@,
                    (16384 - visited@.len()) as nat,
                ),
                jumped,
                consumed as int,
            ),
        decreases 16384 - visited@.len(), end_cur - pos,
    {
        let ghost fuel = (16384 - visited@.len()) as nat;
        let ghost cur = scan_seg(
            payload@,
            base as int,
            seg_start as int,
            pos as int,
            end_cur as int,
            visited@,
            acc@,
            fuel,
        );
        if pos >= end_cur {
            let c = if jumped {
                consumed
            } else {
                pos - seg_start
            };
            proof {
                assert(cur == NameScan::Done { consumed: pos - seg_start, bytes: acc@ });
                assert(target == with_consumed(cur, jumped, consumed as int));
            }
            let lossy = utf8_lossy(acc.as_slice());
            return Ok((c, to_lowercase(lossy.as_str())));
        }
        let b = payload[pos];
        if b == 0 {
            let c = if jumped {
                consumed
            } else {
                pos + 1 - seg_start
            };
            proof {
                assert(cur == NameScan::Done { consumed: pos + 1 - seg_start, bytes: acc@ });
                assert(target == with_consumed(cur, jumped, consumed as int));
            }
            let lossy = utf8_lossy(acc.as_slice());
            return Ok((c, to_lowercase(lossy.as_str())));
        }
        if b >= 192 {
            if pos + 1 >= end_cur {
                proof {
                    assert(cur == NameScan::Fail { error: DNSError::TruncatedLabel });
                }
                return Err(DNSError::TruncatedLabel);
            }
            let off16: u16 = ((b - 192) as u16) * 256 + (payload[pos + 1] as u16);
            if contains_u16(&visited, off16) {
                return Err(DNSError::RecursivePointer);
            }
            proof {
                assert(visited@.push(off16).no_duplicates());
                assert(forall|i: int|
                    0 <= i < visited@.push(off16).len() ==> visited@.push(off16)[i] < 16384);
                lemma_distinct_offsets_bounded(visited@.push(off16));
            }
            visited.push(off16);
            let off = off16 as usize;
            if off >= payload.len() - base {
                return Err(DNSError::OffsetOutOfRange);
            }
            if !jumped {
                consumed = pos + 2 - seg_start;
                jumped = true;
            }
            pos = base + off;
            seg_start = base + off;
            end_cur = payload.len();
        } else {
            let l = b as usize;
            if l > end_cur - pos - 1 {
                return Err(DNSError::TruncatedLabel);
            }
            let ghost acc0 = acc@;
            if acc.len() > 0 {
                acc.push(46u8);
            }
            let ghost acc1 = acc@;
            let mut k: usize = 0;
            while k < l
                invariant
                    k <= l,
                    pos + 1 + l <= end_cur <= payload@.len(),
                    acc@ == acc1 + payload@.subrange(pos + 1, pos + 1 + k),
                decreases l - k,
            {
                acc.push(payload[pos + 1 + k]);
                proof {
                    assert(acc@ =~= acc1 + payload@.subrange(pos + 1, pos + 1 + (k + 1)));
                }
                k += 1;
            }
            proof {
                let accs = if acc0.len() > 0 {
                    acc0.push(46u8) + payload@.subrange(pos + 1, pos + 1 + l)
                } else {
                    payload@.subrange(pos + 1, pos + 1 + l)
                };
                assert(acc@ =~= accs);
            }
            pos = pos + 1 + l;
        }
    }
}

/// Decodes an answer name starting at `start`: a name that begins with a
/// pointer consumes exactly two bytes; otherwise the labels are scanned
/// in place.
pub fn parse_label(payload: &[u8], base: usize, start: usize, end: usize) -> (r: Result<
    (usize, String),
    DNSError,
>)
    requires
        base <= start < end <= payload@.len(),
    ensures
        name_result_matches(r, scan_label(payload@, base as int, start as int, end as int)),
{
    let b = payload[start];
    if b >= 192 {
        if end - start < 3 {
            return Err(DNSError::TruncatedLabel);
        }
        let off: usize = ((b - 192) as usize) * 256 + (payload[start + 1] as usize);
        if off >= payload.len() - base {
            return Err(DNSError::OffsetOutOfRange);
        }
        match parse_name(payload, base, base + off, payload.len()) {
            Ok((_, s)) => Ok((2, s)),
            Err(e) => Err(e),
        }
    } else {
        parse_name(payload, base, start, end)
    }
}

} // verus!
