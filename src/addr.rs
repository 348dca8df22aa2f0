//! IP address literals, socket endpoints and CIDR ranges, read from text.

use vstd::prelude::*;
use crate::text::{
    ascii_digit, ascii_hex, all_digits, decimal_value, fields, field_bounds, parse_unsigned,
    unsigned_text_value,
};

verus! {

/// An IP address: four octets, or eight 16-bit groups.
#[derive(Debug, Clone, Copy, PartialEq, Eq, Structural, Hash)]
pub enum IpAddress {
    V4(u8, u8, u8, u8),
    V6(u16, u16, u16, u16, u16, u16, u16, u16),
}

/// A remote `(IP, port)` that datagrams are sent to and received from.
#[derive(Debug, Clone, Copy, PartialEq, Eq, Structural, Hash)]
pub struct Endpoint {
    pub ip: IpAddress,
    pub port: u16,
}

/// One dotted-quad octet: one to three digits, no leading zero, at most 255.
pub open spec fn octet_value(t: Seq<char>) -> Option<nat> {
    if 1 <= t.len() <= 3 && all_digits(t) && !(t.len() > 1 && t[0] == '0') && decimal_value(t)
        <= 255 {
        Some(decimal_value(t))
    } else {
        None
    }
}

/// The four octets of a dotted-quad IPv4 literal.
pub open spec fn ipv4_parts(s: Seq<char>) -> Option<Seq<nat>> {
    let f = fields(s, '.');
    if f.len() == 4 && (forall|k: int| 0 <= k < 4 ==> (#[trigger] octet_value(f[k])) is Some) {
        Some(Seq::new(4, |k: int| octet_value(f[k])->0))
    } else {
        None
    }
}

pub open spec fn hex_digit_value(c: char) -> nat {
    if ascii_digit(c) {
        (c as nat - '0' as nat) as nat
    } else if 'a' <= c && c <= 'f' {
        (c as nat - 'a' as nat + 10) as nat
    } else {
        (c as nat - 'A' as nat + 10) as nat
    }
}

pub open spec fn hex_value(t: Seq<char>) -> nat
    decreases t.len(),
{
    if t.len() == 0 {
        0
    } else {
        hex_value(t.drop_last()) * 16 + hex_digit_value(t.last())
    }
}

/// One IPv6 group: one to four hexadecimal digits.
pub open spec fn group_value(t: Seq<char>) -> Option<nat> {
    if 1 <= t.len() <= 4 && (forall|i: int| 0 <= i < t.len() ==> ascii_hex(#[trigger] t[i])) {
        Some(hex_value(t))
    } else {
        None
    }
}

/// The groups of a `:`-separated run of hexadecimal groups; the empty text has none.
pub open spec fn group_run(s: Seq<char>) -> Option<Seq<nat>> {
    let f = fields(s, ':');
    if s.len() == 0 {
        Some(Seq::<nat>::empty())
    } else if forall|k: int| 0 <= k < f.len() ==> (#[trigger] group_value(f[k])) is Some {
        Some(Seq::new(f.len(), |k: int| group_value(f[k])->0))
    } else {
        None
    }
}

/// Whether `::` starts at position `i` of `s`.
pub open spec fn double_colon_at(s: Seq<char>, i: int) -> bool {
    0 <= i && i + 1 < s.len() && s[i] == ':' && s[i + 1] == ':'
}

pub open spec fn has_double_colon(s: Seq<char>) -> bool {
    exists|i: int| double_colon_at(s, i)
}

/// The eight groups of an IPv6 literal written as hexadecimal groups, with at most one
/// `::` standing for one or more zero groups.
pub open spec fn ipv6_parts(s: Seq<char>) -> Option<Seq<nat>> {
    if !has_double_colon(s) {
        match group_run(s) {
            Some(g) => if g.len() == 8 && s.len() > 0 {
                Some(g)
            } else {
                None
            },
            None => None,
        }
    } else {
        let i = choose|i: int| double_colon_at(s, i) && forall|j: int| #![trigger double_colon_at(s, j)] 0 <= j < i ==> !double_colon_at(s, j);
        let head = s.subrange(0, i);
        let tail = s.subrange(i + 2, s.len() as int);
        if has_double_colon(tail) {
            None
        } else {
            match (group_run(head), group_run(tail)) {
                (Some(h), Some(t)) => if h.len() + t.len() <= 7 {
                    Some(h + Seq::new((8 - h.len() - t.len()) as nat, |k: int| 0nat) + t)
                } else {
                    None
                },
                _ => None,
            }
        }
    }
}

/// The address that an IP literal spells.
pub open spec fn ip_literal(s: Seq<char>) -> Option<IpAddress> {
    if has_char_dot(s) {
        match ipv4_parts(s) {
            Some(p) => Some(IpAddress::V4(p[0] as u8, p[1] as u8, p[2] as u8, p[3] as u8)),
            None => None,
        }
    } else {
        match ipv6_parts(s) {
            Some(p) => Some(
                IpAddress::V6(
                    p[0] as u16,
                    p[1] as u16,
                    p[2] as u16,
                    p[3] as u16,
                    p[4] as u16,
                    p[5] as u16,
                    p[6] as u16,
                    p[7] as u16,
                ),
            ),
            None => None,
        }
    }
}

pub open spec fn has_char_dot(s: Seq<char>) -> bool {
    exists|i: int| 0 <= i < s.len() && s[i] == '.'
}

fn parse_octet(s: &str, from: usize, to: usize) -> (r: Option<u8>)
    requires
        from <= to <= s@.len(),
    ensures
        match octet_value(s@.subrange(from as int, to as int)) {
            Some(v) => r == Some(v as u8),
            None => r is None,
        },
{
    let ghost t = s@.subrange(from as int, to as int);
    if to - from < 1 || to - from > 3 {
        return None;
    }
    let c0 = s.get_char(from);
    assert(t[0] == c0);
    if !('0' <= c0 && c0 <= '9') {
        return None;
    }
    if c0 == '0' && to - from > 1 {
        return None;
    }
    assert(crate::text::unsigned_digits(t) == t);
    match parse_unsigned(s, from, to, 255) {
        Some(v) => Some(v as u8),
        None => None,
    }
}

/// Reads a dotted-quad IPv4 literal.
pub fn parse_ipv4(s: &str) -> (r: Option<IpAddress>)
    ensures
        match ipv4_parts(s@) {
            Some(p) => r == Some(IpAddress::V4(p[0] as u8, p[1] as u8, p[2] as u8, p[3] as u8)),
            None => r is None,
        },
{
    let b = field_bounds(s, '.');
    let ghost f = fields(s@, '.');
    if b.len() != 4 {
        return None;
    }
    let mut out: Vec<u8> = Vec::new();
    let mut k: usize = 0;
    while k < 4
        invariant
            b@.len() == 4,
            f.len() == 4,
            f == fields(s@, '.'),
            k <= 4,
            out@.len() == k,
            forall|j: int| 0 <= j < b@.len() ==> #[trigger] b@[j].0 <= b@[j].1 && b@[j].1 <= s@.len(),
            forall|j: int| 0 <= j < b@.len() ==> s@.subrange(b@[j].0 as int, b@[j].1 as int) == #[trigger] f[j],
            forall|j: int| 0 <= j < k ==> #[trigger] octet_value(f[j]) == Some(out@[j] as nat),
        decreases 4 - k,
    {
        let (lo, hi) = b[k];
        assert(s@.subrange(b@[k as int].0 as int, b@[k as int].1 as int) == f[k as int]);
        match parse_octet(s, lo, hi) {
            Some(v) => {
                out.push(v);
            },
            None => {
                assert(octet_value(f[k as int]) is None);
                return None;
            },
        }
        k = k + 1;
    }
    let ghost p = Seq::new(4, |j: int| octet_value(f[j])->0);
    assert(forall|j: int| 0 <= j < 4 ==> (#[trigger] octet_value(f[j])) is Some);
    assert(ipv4_parts(s@) == Some(p));
    Some(IpAddress::V4(out[0], out[1], out[2], out[3]))
}

proof fn lemma_hex_value_step(t: Seq<char>, c: char)
    requires
        ascii_hex(c),
    ensures
        hex_value(t.push(c)) == hex_value(t) * 16 + hex_digit_value(c),
        hex_digit_value(c) < 16,
{
    assert(t.push(c).drop_last() =~= t);
}

fn parse_hex_group(s: &str, from: usize, to: usize) -> (r: Option<u16>)
    requires
        from <= to <= s@.len(),
    ensures
        match group_value(s@.subrange(from as int, to as int)) {
            Some(v) => r == Some(v as u16) && v < 0x10000,
            None => r is None,
        },
{
    let ghost t = s@.subrange(from as int, to as int);
    if to - from < 1 || to - from > 4 {
        return None;
    }
    let mut acc: u32 = 0;
    let mut i = from;
    while i < to
        invariant
            from <= i <= to <= s@.len(),
            to - from <= 4,
            t == s@.subrange(from as int, to as int),
            forall|j: int| from <= j < i ==> ascii_hex(#[trigger] s@[j]),
            acc as nat == hex_value(s@.subrange(from as int, i as int)),
            acc < pow16((i - from) as nat),
        decreases to - i,
    {
        let c = s.get_char(i);
        let d: u32 = if '0' <= c && c <= '9' {
            c as u32 - '0' as u32
        } else if 'a' <= c && c <= 'f' {
            c as u32 - 'a' as u32 + 10
        } else if 'A' <= c && c <= 'F' {
            c as u32 - 'A' as u32 + 10
        } else {
            assert(t[i - from] == c);
            return None;
        };
        let ghost p = s@.subrange(from as int, i as int);
        assert(s@.subrange(from as int, i + 1) =~= p.push(c));
        proof {
            lemma_hex_value_step(p, c);
            assert(pow16((i + 1 - from) as nat) == 16 * pow16((i - from) as nat));
            lemma_pow16_mono((i - from) as nat, 3);
            assert(pow16(3) == 4096) by {
                assert(pow16(0) == 1);
                assert(pow16(1) == 16);
                assert(pow16(2) == 256);
            }
        }
        acc = acc * 16 + d;
        i = i + 1;
    }
    assert(s@.subrange(from as int, to as int) == t);
    assert forall|j: int| 0 <= j < t.len() implies ascii_hex(#[trigger] t[j]) by {
        assert(t[j] == s@[from + j]);
    }
    assert(pow16(4) == 65536) by {
        assert(pow16(0) == 1);
        assert(pow16(1) == 16);
        assert(pow16(2) == 256);
        assert(pow16(3) == 4096);
    }
    if to - from < 4 {
        proof { lemma_pow16_mono((to - from) as nat, 4); }
    }
    Some(acc as u16)
}

spec fn pow16(n: nat) -> nat
    decreases n,
{
    if n == 0 {
        1
    } else {
        16 * pow16((n - 1) as nat)
    }
}

proof fn lemma_pow16_mono(a: nat, b: nat)
    requires
        a <= b,
    ensures
        pow16(a) <= pow16(b),
    decreases b - a,
{
    if a < b {
        lemma_pow16_mono(a, (b - 1) as nat);
    }
}

fn parse_group_run(s: &str) -> (r: Option<Vec<u16>>)
    ensures
        match group_run(s@) {
            Some(g) => r is Some && r->0@.len() == g.len() && forall|k: int|
                0 <= k < g.len() ==> #[trigger] g[k] == r->0@[k] as nat,
            None => r is None,
        },
{
    let mut out: Vec<u16> = Vec::new();
    if s.unicode_len() == 0 {
        return Some(out);
    }
    let b = field_bounds(s, ':');
    let ghost f = fields(s@, ':');
    let mut k: usize = 0;
    while k < b.len()
        invariant
            b@.len() == f.len(),
            f == fields(s@, ':'),
            s@.len() > 0,
            k <= b@.len(),
            out@.len() == k,
            forall|j: int| 0 <= j < b@.len() ==> #[trigger] b@[j].0 <= b@[j].1 && b@[j].1 <= s@.len(),
            forall|j: int| 0 <= j < b@.len() ==> s@.subrange(b@[j].0 as int, b@[j].1 as int) == #[trigger] f[j],
            forall|j: int| 0 <= j < k ==> #[trigger] group_value(f[j]) == Some(out@[j] as nat),
        decreases b@.len() - k,
    {
        let (lo, hi) = b[k];
        assert(s@.subrange(b@[k as int].0 as int, b@[k as int].1 as int) == f[k as int]);
        match parse_hex_group(s, lo, hi) {
            Some(v) => {
                out.push(v);
            },
            None => {
                assert(group_value(f[k as int]) is None);
                assert(s@.len() > 0);
                return None;
            },
        }
        k = k + 1;
    }
    assert(forall|j: int| 0 <= j < f.len() ==> (#[trigger] group_value(f[j])) is Some);
    Some(out)
}

fn find_double_colon(s: &str) -> (r: Option<usize>)
    ensures
        match r {
            Some(i) => double_colon_at(s@, i as int) && forall|j: int|
                #![trigger double_colon_at(s@, j)]
                0 <= j < i ==> !double_colon_at(s@, j),
            None => !has_double_colon(s@),
        },
{
    let n = s.unicode_len();
    let mut i: usize = 0;
    while i < n
        invariant
            n == s@.len(),
            i <= n,
            forall|j: int| #![trigger double_colon_at(s@, j)] 0 <= j < i ==> !double_colon_at(s@, j),
        decreases n - i,
    {
        if i + 1 < n && s.get_char(i) == ':' && s.get_char(i + 1) == ':' {
            return Some(i);
        }
        i = i + 1;
    }
    assert forall|j: int| !double_colon_at(s@, j) by {
        if 0 <= j < i {
        }
    }
    None
}

/// Reads an IPv6 literal written as hexadecimal groups, with at most one `::`.
pub fn parse_ipv6(s: &str) -> (r: Option<IpAddress>)
    ensures
        match ipv6_parts(s@) {
            Some(p) => r == Some(
                IpAddress::V6(
                    p[0] as u16,
                    p[1] as u16,
                    p[2] as u16,
                    p[3] as u16,
                    p[4] as u16,
                    p[5] as u16,
                    p[6] as u16,
                    p[7] as u16,
                ),
            ),
            None => r is None,
        },
{
    let n = s.unicode_len();
    match find_double_colon(s) {
        None => {
            match parse_group_run(s) {
                Some(g) => {
                    if g.len() == 8 && n > 0 {
                        Some(IpAddress::V6(g[0], g[1], g[2], g[3], g[4], g[5], g[6], g[7]))
                    } else {
                        None
                    }
                },
                None => None,
            }
        },
        Some(i) => {
            let ghost ci = choose|i: int|
                double_colon_at(s@, i) && forall|j: int|
                    #![trigger double_colon_at(s@, j)]
                    0 <= j < i ==> !double_colon_at(s@, j);
            assert(ci == i as int) by {
                if ci < i {
                } else if ci > i {
                }
            }
            let head = s.substring_char(0, i);
            let tail = s.substring_char(i + 2, n);
            if find_double_colon(tail).is_some() {
                return None;
            }
            let h = match parse_group_run(head) {
                Some(h) => h,
                None => {
                    return None;
                },
            };
            let t = match parse_group_run(tail) {
                Some(t) => t,
                None => {
                    return None;
                },
            };
            if h.len() > 7 || t.len() > 7 - h.len() {
                return None;
            }
            let ghost hs = h@.map_values(|x: u16| x as nat);
            let ghost ts = t@.map_values(|x: u16| x as nat);
            let ghost all = hs + Seq::new((8 - hs.len() - ts.len()) as nat, |k: int| 0nat) + ts;
            let mut g: Vec<u16> = Vec::new();
            let mut k: usize = 0;
            while k < h.len()
                invariant
                    k <= h@.len(),
                    g@.len() == k,
                    forall|j: int| 0 <= j < k ==> #[trigger] g@[j] == h@[j],
                decreases h@.len() - k,
            {
                g.push(h[k]);
                k = k + 1;
            }
            let zeros = 8 - h.len() - t.len();
            k = 0;
            while k < zeros
                invariant
                    k <= zeros,
                    zeros == 8 - h@.len() - t@.len(),
                    g@.len() == h@.len() + k,
                    forall|j: int| 0 <= j < h@.len() ==> #[trigger] g@[j] == h@[j],
                    forall|j: int| h@.len() <= j < h@.len() + k ==> #[trigger] g@[j] == 0,
                decreases zeros - k,
            {
                g.push(0);
                k = k + 1;
            }
            k = 0;
            while k < t.len()
                invariant
                    k <= t@.len(),
                    zeros == 8 - h@.len() - t@.len(),
                    g@.len() == h@.len() + zeros + k,
                    forall|j: int| 0 <= j < h@.len() ==> #[trigger] g@[j] == h@[j],
                    forall|j: int| h@.len() <= j < h@.len() + zeros ==> #[trigger] g@[j] == 0,
                    forall|j: int| 0 <= j < k ==> #[trigger] g@[h@.len() + zeros + j] == t@[j],
                decreases t@.len() - k,
            {
                g.push(t[k]);
                k = k + 1;
            }
            assert(all.len() == 8);
            assert forall|j: int| 0 <= j < 8 implies #[trigger] all[j] == g@[j] as nat by {
                if j < hs.len() {
                } else if j < hs.len() + zeros {
                } else {
                    assert(g@[h@.len() + zeros + (j - h@.len() - zeros)] == t@[j - h@.len() - zeros]);
                }
            }
            assert(ipv6_parts(s@) == Some(all));
            Some(IpAddress::V6(g[0], g[1], g[2], g[3], g[4], g[5], g[6], g[7]))
        },
    }
}

fn find_dot(s: &str) -> (r: bool)
    ensures
        r == has_char_dot(s@),
{
    let n = s.unicode_len();
    let mut i: usize = 0;
    while i < n
        invariant
            n == s@.len(),
            i <= n,
            forall|j: int| 0 <= j < i ==> s@[j] != '.',
        decreases n - i,
    {
        if s.get_char(i) == '.' {
            return true;
        }
        i = i + 1;
    }
    false
}

/// Reads an IP literal: a dotted quad when the text holds a `.`, else IPv6 groups.
pub fn parse_ip(s: &str) -> (r: Option<IpAddress>)
    ensures
        r == ip_literal(s@),
{
    if find_dot(s) {
        parse_ipv4(s)
    } else {
        parse_ipv6(s)
    }
}

/// The widest prefix a CIDR range over this address family may have.
pub open spec fn max_prefix(a: IpAddress) -> nat {
    match a {
        IpAddress::V4(..) => 32,
        IpAddress::V6(..) => 128,
    }
}

/// A CIDR range `IP/prefix`: an IP literal, one `/`, and a prefix length that the
/// address family allows.
pub open spec fn cidr_literal(s: Seq<char>) -> Option<(IpAddress, nat)> {
    let f = fields(s, '/');
    if f.len() == 2 {
        match (ip_literal(f[0]), unsigned_text_value(f[1], 255)) {
            (Some(a), Some(p)) => if p <= max_prefix(a) {
                Some((a, p))
            } else {
                None
            },
            _ => None,
        }
    } else {
        None
    }
}

/// Why a CIDR range was rejected.
#[derive(Debug, Clone, Copy, PartialEq, Eq)]
pub enum CidrFault {
    /// Not exactly one `/`.
    Shape,
    /// The part before `/` is no IP literal.
    Address,
    /// The part after `/` is no number from 0 to 255.
    Prefix,
    /// The prefix is wider than the address family allows.
    TooWide,
}

/// Reads a CIDR range `IP/prefix`.
pub fn parse_cidr(s: &str) -> (r: Result<(IpAddress, u8), CidrFault>)
    ensures
        match cidr_literal(s@) {
            Some((a, p)) => r == Ok::<(IpAddress, u8), CidrFault>((a, p as u8)),
            None => r is Err,
        },
        r matches Err(CidrFault::TooWide) ==> {
            let f = fields(s@, '/');
            &&& f.len() == 2
            &&& ip_literal(f[0]) is Some
            &&& unsigned_text_value(f[1], 255) is Some
        },
{
    let b = field_bounds(s, '/');
    if b.len() != 2 {
        return Err(CidrFault::Shape);
    }
    let (lo0, hi0) = b[0];
    let (lo1, hi1) = b[1];
    let ip_text = s.substring_char(lo0, hi0);
    let ip = match parse_ip(ip_text) {
        Some(a) => a,
        None => {
            return Err(CidrFault::Address);
        },
    };
    let prefix = match parse_unsigned(s, lo1, hi1, 255) {
        Some(v) => v,
        None => {
            return Err(CidrFault::Prefix);
        },
    };
    let max: u64 = match ip {
        IpAddress::V4(..) => 32,
        IpAddress::V6(..) => 128,
    };
    if prefix > max {
        return Err(CidrFault::TooWide);
    }
    Ok((ip, prefix as u8))
}

/// A port number: decimal digits, leading zeros allowed, at most 65535.
pub open spec fn port_value(t: Seq<char>) -> Option<nat> {
    if t.len() > 0 && all_digits(t) && decimal_value(t) <= 65535 {
        Some(decimal_value(t))
    } else {
        None
    }
}

/// A socket address: `a.b.c.d:port`, or `[v6]:port`.
pub open spec fn endpoint_literal(s: Seq<char>) -> Option<Endpoint> {
    if s.len() > 0 && s[0] == '[' {
        let f = fields(s, ']');
        if f.len() == 2 && f[0].len() > 0 && f[1].len() > 0 && f[1][0] == ':' {
            match (ipv6_parts(f[0].drop_first()), port_value(f[1].drop_first())) {
                (Some(p), Some(port)) => Some(
                    Endpoint {
                        ip: IpAddress::V6(
                            p[0] as u16,
                            p[1] as u16,
                            p[2] as u16,
                            p[3] as u16,
                            p[4] as u16,
                            p[5] as u16,
                            p[6] as u16,
                            p[7] as u16,
                        ),
                        port: port as u16,
                    },
                ),
                _ => None,
            }
        } else {
            None
        }
    } else {
        let f = fields(s, ':');
        if f.len() == 2 {
            match (ipv4_parts(f[0]), port_value(f[1])) {
                (Some(p), Some(port)) => Some(
                    Endpoint {
                        ip: IpAddress::V4(p[0] as u8, p[1] as u8, p[2] as u8, p[3] as u8),
                        port: port as u16,
                    },
                ),
                _ => None,
            }
        } else {
            None
        }
    }
}

fn parse_port(s: &str, from: usize, to: usize) -> (r: Option<u16>)
    requires
        from <= to <= s@.len(),
    ensures
        match port_value(s@.subrange(from as int, to as int)) {
            Some(v) => r == Some(v as u16),
            None => r is None,
        },
{
    let ghost t = s@.subrange(from as int, to as int);
    if from == to {
        return None;
    }
    let c0 = s.get_char(from);
    assert(t[0] == c0);
    if !('0' <= c0 && c0 <= '9') {
        return None;
    }
    assert(crate::text::unsigned_digits(t) == t);
    match parse_unsigned(s, from, to, 65535) {
        Some(v) => Some(v as u16),
        None => None,
    }
}

/// Reads a socket address `a.b.c.d:port` or `[v6]:port`.
pub fn parse_endpoint(s: &str) -> (r: Option<Endpoint>)
    ensures
        r == endpoint_literal(s@),
{
    let n = s.unicode_len();
    if n > 0 && s.get_char(0) == '[' {
        let b = field_bounds(s, ']');
        if b.len() != 2 {
            return None;
        }
        let (lo0, hi0) = b[0];
        let (lo1, hi1) = b[1];
        let ghost f = fields(s@, ']');
        assert(s@.subrange(lo0 as int, hi0 as int) == f[0]);
        assert(s@.subrange(lo1 as int, hi1 as int) == f[1]);
        if lo1 == hi1 || s.get_char(lo1) != ':' {
            return None;
        }
        if lo0 == hi0 {
            return None;
        }
        let inner = s.substring_char(lo0 + 1, hi0);
        assert(inner@ =~= f[0].drop_first());
        assert(s@.subrange(lo1 + 1, hi1 as int) =~= f[1].drop_first());
        let ip = parse_ipv6(inner);
        let port = parse_port(s, lo1 + 1, hi1);
        match (ip, port) {
            (Some(a), Some(p)) => Some(Endpoint { ip: a, port: p }),
            _ => None,
        }
    } else {
        let b = field_bounds(s, ':');
        if b.len() != 2 {
            return None;
        }
        let (lo0, hi0) = b[0];
        let (lo1, hi1) = b[1];
        let ghost f = fields(s@, ':');
        assert(s@.subrange(lo0 as int, hi0 as int) == f[0]);
        assert(s@.subrange(lo1 as int, hi1 as int) == f[1]);
        let ip = parse_ipv4(s.substring_char(lo0, hi0));
        let port = parse_port(s, lo1, hi1);
        match (ip, port) {
            (Some(a), Some(p)) => Some(Endpoint { ip: a, port: p }),
            _ => None,
        }
    }
}

} // verus!
