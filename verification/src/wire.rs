use vstd::prelude::*;
use vstd::utf8::is_ascii_chars;

verus! {

broadcast use vstd::string::is_ascii_spec_bytes;

/// The big-endian 16-bit integer held at `s[i]` and `s[i + 1]`.
pub open spec fn u16_be(s: Seq<u8>, i: int) -> int {
    s[i] * 256 + s[i + 1]
}

/// The big-endian 32-bit integer held at `s[i]` through `s[i + 3]`.
pub open spec fn u32_be(s: Seq<u8>, i: int) -> int {
    ((s[i] * 256 + s[i + 1]) * 256 + s[i + 2]) * 256 + s[i + 3]
}

/// Reads a big-endian 16-bit integer from two bytes of a slice.
pub fn read_u16_be(s: &[u8], i: usize) -> (r: u16)
    requires
        i + 2 <= s@.len(),
    ensures
        r == u16_be(s@, i as int),
{
    (s[i] as u16) * 256 + (s[i + 1] as u16)
}

/// Reads a big-endian 32-bit integer from four bytes of a slice.
pub fn read_u32_be(s: &[u8], i: usize) -> (r: u32)
    requires
        i + 4 <= s@.len(),
    ensures
        r == u32_be(s@, i as int),
{
    (((s[i] as u32) * 256 + (s[i + 1] as u32)) * 256 + (s[i + 2] as u32)) * 256 + (s[i + 3] as u32)
}

/// A byte whose top two bits are both set opens a two-byte
/// compression pointer.
pub open spec fn spec_is_pointer(b: u8) -> bool {
    b >= 192
}

/// Tells whether a byte is the first byte of a compression pointer.
pub fn is_pointer(mask: u8) -> (r: bool)
    ensures
        r == spec_is_pointer(mask),
{
    mask >= 192
}

/// The ASCII decimal digits of a byte value, without leading zeros.
pub open spec fn dec_u8(v: u8) -> Seq<u8> {
    if v < 10 {
        seq![(48 + v) as u8]
    } else if v < 100 {
        seq![(48 + v / 10) as u8, (48 + v % 10) as u8]
    } else {
        seq![(48 + v / 100) as u8, (48 + (v / 10) % 10) as u8, (48 + v % 10) as u8]
    }
}

/// The dotted-quad text of an IPv4 address, as ASCII bytes.
pub open spec fn ipv4_bytes(a: u8, b: u8, c: u8, d: u8) -> Seq<u8> {
    dec_u8(a) + seq![46u8] + dec_u8(b) + seq![46u8] + dec_u8(c) + seq![46u8] + dec_u8(d)
}

/// ASCII bytes read as characters.
pub open spec fn ascii_text(bs: Seq<u8>) -> Seq<char> {
    bs.map_values(|x: u8| x as char)
}

/// The dotted-quad text of an IPv4 address.
pub open spec fn ipv4_text(a: u8, b: u8, c: u8, d: u8) -> Seq<char> {
    ascii_text(ipv4_bytes(a, b, c, d))
}

/// All decimal digits are ASCII.
pub proof fn lemma_dec_u8_ascii(v: u8)
    ensures
        forall|i: int| 0 <= i < dec_u8(v).len() ==> 48 <= #[trigger] dec_u8(v)[i] && dec_u8(v)[i]
            < 58,
{
}

/// Appends the decimal digits of `v`.
pub fn push_dec_u8(out: &mut Vec<u8>, v: u8)
    ensures
        final(out)@ == old(out)@ + dec_u8(v),
{
    if v < 10 {
        out.push(48 + v);
    } else if v < 100 {
        out.push(48 + v / 10);
        out.push(48 + v % 10);
    } else {
        out.push(48 + v / 100);
        out.push(48 + (v / 10) % 10);
        out.push(48 + v % 10);
    }
    proof {
        assert(final(out)@ =~= old(out)@ + dec_u8(v));
    }
}

/// One lowercase hexadecimal digit.
pub open spec fn hex_digit(d: int) -> u8 {
    if d < 10 {
        (48 + d) as u8
    } else {
        (87 + d) as u8
    }
}

/// The lowercase hexadecimal digits of a 16-bit group, without leading
/// zeros.
pub open spec fn hex_u16(v: u16) -> Seq<u8> {
    let n = v as int;
    if n < 16 {
        seq![hex_digit(n)]
    } else if n < 256 {
        seq![hex_digit(n / 16), hex_digit(n % 16)]
    } else if n < 4096 {
        seq![hex_digit(n / 256), hex_digit((n / 16) % 16), hex_digit(n % 16)]
    } else {
        seq![
            hex_digit(n / 4096),
            hex_digit((n / 256) % 16),
            hex_digit((n / 16) % 16),
            hex_digit(n % 16),
        ]
    }
}

/// Appends the lowercase hexadecimal digits of `v`.
pub fn push_hex_u16(out: &mut Vec<u8>, v: u16)
    ensures
        final(out)@ == old(out)@ + hex_u16(v),
{
    if v < 16 {
        out.push(hex_digit_exec(v));
    } else if v < 256 {
        out.push(hex_digit_exec(v / 16));
        out.push(hex_digit_exec(v % 16));
    } else if v < 4096 {
        out.push(hex_digit_exec(v / 256));
        out.push(hex_digit_exec((v / 16) % 16));
        out.push(hex_digit_exec(v % 16));
    } else {
        out.push(hex_digit_exec(v / 4096));
        out.push(hex_digit_exec((v / 256) % 16));
        out.push(hex_digit_exec((v / 16) % 16));
        out.push(hex_digit_exec(v % 16));
    }
    proof {
        assert(final(out)@ =~= old(out)@ + hex_u16(v));
    }
}

/// Computes one lowercase hexadecimal digit.
fn hex_digit_exec(d: u16) -> (r: u8)
    requires
        d < 16,
    ensures
        r == hex_digit(d as int),
{
    if d < 10 {
        48 + (d as u8)
    } else {
        87 + (d as u8)
    }
}

/// The number of consecutive zero groups starting at `i`.
pub open spec fn zero_run_len(g: Seq<u16>, i: int) -> int
    decreases g.len() - i when 0 <= i <= g.len()
{
    if 0 <= i < g.len() && g[i] == 0 {
        1 + zero_run_len(g, i + 1)
    } else {
        0
    }
}

/// The leftmost longest zero run at or after `i`, improving on a best
/// candidate `(bs, bl)`.
pub open spec fn best_zero_run(g: Seq<u16>, i: int, bs: int, bl: int) -> (int, int)
    decreases g.len() - i when 0 <= i <= g.len()
{
    if i >= g.len() {
        (bs, bl)
    } else if zero_run_len(g, i) > bl {
        best_zero_run(g, i + 1, i, zero_run_len(g, i))
    } else {
        best_zero_run(g, i + 1, bs, bl)
    }
}

/// The hexadecimal groups `g[i..j]` joined by colons, as ASCII bytes.
pub open spec fn join_hex(g: Seq<u16>, i: int, j: int) -> Seq<u8>
    decreases j - i when i <= j
{
    if i >= j {
        Seq::empty()
    } else if i + 1 == j {
        hex_u16(g[i])
    } else {
        hex_u16(g[i]) + seq![58u8] + join_hex(g, i + 1, j)
    }
}

/// The canonical text of an IPv6 address from its eight groups: groups
/// in lowercase hexadecimal joined by colons, with the leftmost longest
/// run of at least two zero groups compressed to a double colon.
pub open spec fn ipv6_bytes(g: Seq<u16>) -> Seq<u8> {
    let run = best_zero_run(g, 0, 0, 0);
    if run.1 < 2 {
        join_hex(g, 0, 8)
    } else {
        join_hex(g, 0, run.0) + seq![58u8, 58u8] + join_hex(g, run.0 + run.1, 8)
    }
}

/// The eight 16-bit groups of sixteen address bytes.
pub open spec fn groups_of(bs: Seq<u8>) -> Seq<u16> {
    Seq::new(8, |i: int| (bs[2 * i] * 256 + bs[2 * i + 1]) as u16)
}

/// The canonical text of an IPv6 address held as sixteen bytes.
pub open spec fn ipv6_text(bs: Seq<u8>) -> Seq<char> {
    ascii_text(ipv6_bytes(groups_of(bs)))
}

/// Whether a character is an ASCII decimal digit.
pub open spec fn is_digit_char(c: char) -> bool {
    48 <= c as u32 <= 57
}

/// Whether a character is an ASCII hexadecimal digit, either case.
pub open spec fn is_hex_char(c: char) -> bool {
    is_digit_char(c) || (97 <= c as u32 <= 102) || (65 <= c as u32 <= 70)
}

/// The number of dots among the first `k` characters.
pub open spec fn count_dots(s: Seq<char>, k: int) -> int
    decreases k,
{
    if k <= 0 {
        0
    } else {
        count_dots(s, k - 1) + if s[k - 1] as u32 == 46 {
            1int
        } else {
            0int
        }
    }
}

/// A literal IPv4 address in the loose sense this library uses for
/// suppressing suffix lookups: digits and exactly three dots, neither
/// starting nor ending with a dot, with no two dots adjacent.
pub open spec fn is_ipv4_chars(s: Seq<char>) -> bool {
    &&& s.len() > 0
    &&& s[0] as u32 != 46
    &&& s[s.len() - 1] as u32 != 46
    &&& forall|i: int| 0 <= i < s.len() ==> is_digit_char(#[trigger] s[i]) || s[i] as u32 == 46
    &&& forall|i: int| 0 <= i < s.len() - 1 && (#[trigger] s[i]) as u32 == 46 ==> s[i + 1] as u32 != 46
    &&& count_dots(s, s.len() as int) == 3
}

/// A literal IPv6 address in the loose sense this library uses:
/// hexadecimal digits and colons with at least one colon.
pub open spec fn is_ipv6_chars(s: Seq<char>) -> bool {
    &&& s.len() > 0
    &&& forall|i: int| 0 <= i < s.len() ==> is_hex_char(#[trigger] s[i]) || s[i] as u32 == 58
    &&& exists|i: int| 0 <= i < s.len() && (#[trigger] s[i]) as u32 == 58
}

/// Whether a string is a literal IP address; only ASCII strings can be.
pub open spec fn is_ip_chars(s: Seq<char>) -> bool {
    is_ascii_chars(s) && (is_ipv4_chars(s) || is_ipv6_chars(s))
}

/// Tells whether a string is a literal IPv4 or IPv6 address, in the
/// loose sense used to suppress suffix lookups.
pub fn is_ip_address(s: &str) -> (r: bool)
    ensures
        r == is_ip_chars(s@),
{
    if !s.is_ascii() {
        return false;
    }
    let b = s.as_bytes();
    proof {
        assert(b@ =~= Seq::new(s@.len(), |i: int| s@.index(i) as u8));
    }
    let v4 = ipv4_scan(b, Ghost(s@));
    let v6 = ipv6_scan(b, Ghost(s@));
    v4 || v6
}

/// One pass over ASCII bytes deciding the IPv4 literal shape.
fn ipv4_scan(b: &[u8], Ghost(s): Ghost<Seq<char>>) -> (r: bool)
    requires
        is_ascii_chars(s),
        b@ == Seq::new(s.len(), |i: int| s.index(i) as u8),
    ensures
        r == is_ipv4_chars(s),
{
    let n = b.len();
    if n == 0 {
        return false;
    }
    if b[0] == 46 {
        return false;
    }
    if b[n - 1] == 46 {
        proof {
            assert(s[s.len() - 1] as u32 == 46);
        }
        return false;
    }
    let mut i: usize = 0;
    let mut dots: usize = 0;
    while i < n
        invariant
            is_ascii_chars(s),
            b@ == Seq::new(s.len(), |k: int| s.index(k) as u8),
            n == b@.len(),
            i <= n,
            dots <= i,
            dots == count_dots(s, i as int),
            forall|j: int| 0 <= j < i ==> is_digit_char(#[trigger] s[j]) || s[j] as u32 == 46,
            forall|j: int| 0 <= j < i && j < s.len() - 1 && (#[trigger] s[j]) as u32 == 46 ==> s[j
                + 1] as u32 != 46,
        decreases n - i,
    {
        let c = b[i];
        if c == 46 {
            dots = dots + 1;
            if i + 1 < n && b[i + 1] == 46 {
                proof {
                    assert(s[i as int] as u32 == 46 && s[i + 1] as u32 == 46);
                }
                return false;
            }
        } else if !(48 <= c && c <= 57) {
            proof {
                assert(!(is_digit_char(s[i as int]) || s[i as int] as u32 == 46));
            }
            return false;
        }
        i = i + 1;
    }
    dots == 3
}

/// One pass over ASCII bytes deciding the IPv6 literal shape.
fn ipv6_scan(b: &[u8], Ghost(s): Ghost<Seq<char>>) -> (r: bool)
    requires
        is_ascii_chars(s),
        b@ == Seq::new(s.len(), |i: int| s.index(i) as u8),
    ensures
        r == is_ipv6_chars(s),
{
    let n = b.len();
    if n == 0 {
        return false;
    }
    let mut i: usize = 0;
    let mut has_colon = false;
    while i < n
        invariant
            is_ascii_chars(s),
            b@ == Seq::new(s.len(), |k: int| s.index(k) as u8),
            n == b@.len(),
            i <= n,
            forall|j: int| 0 <= j < i ==> is_hex_char(#[trigger] s[j]) || s[j] as u32 == 58,
            has_colon == exists|j: int| 0 <= j < i && (#[trigger] s[j]) as u32 == 58,
        decreases n - i,
    {
        let c = b[i];
        if c == 58 {
            has_colon = true;
            proof {
                assert(s[i as int] as u32 == 58);
            }
        } else if !((48 <= c && c <= 57) || (97 <= c && c <= 102) || (65 <= c && c <= 70)) {
            proof {
                assert(!(is_hex_char(s[i as int]) || s[i as int] as u32 == 58));
            }
            return false;
        }
        i = i + 1;
    }
    has_colon
}

} // verus!
