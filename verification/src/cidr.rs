use vstd::prelude::*;

use crate::text::{
    all_digits, dec_nat, digit_of, digits_val, is_ascii_digit, lemma_digits_val_take_monotone,
    lemma_digits_val_take_step, push_u64, split_once_at, split_once_text,
};

verus! {

/// An IPv4 network in CIDR notation: four address octets and a prefix
/// length.  A well-formed value has `prefix <= 32`; the address octets are
/// kept as parsed, host bits included, and are masked off on demand.
#[derive(Clone, Copy, Debug, PartialEq, Eq, Structural)]
pub struct Ipv4Cidr {
    pub a: u8,
    pub b: u8,
    pub c: u8,
    pub d: u8,
    pub prefix: u8,
}

/// A decimal octet as it may stand in an address: one to three digits, no
/// leading zero, value at most 255.
pub open spec fn valid_octet_text(s: Seq<char>) -> bool {
    &&& 1 <= s.len() <= 3
    &&& all_digits(s)
    &&& digits_val(s) <= 255
    &&& (s.len() > 1 ==> s[0] != '0')
}

pub open spec fn spec_parse_octet(s: Seq<char>) -> Option<u8> {
    if valid_octet_text(s) {
        Some(digits_val(s) as u8)
    } else {
        None
    }
}

/// Parses one address octet.
pub fn parse_octet(s: &str) -> (r: Option<u8>)
    ensures
        r == spec_parse_octet(s@),
{
    let n = s.unicode_len();
    if n == 0 || n > 3 {
        return None;
    }
    if n > 1 && s.get_char(0) == '0' {
        return None;
    }
    let mut val: u32 = 0;
    let mut i: usize = 0;
    while i < n
        invariant
            n == s@.len(),
            1 <= n <= 3,
            i <= n,
            all_digits(s@.take(i as int)),
            val as int == digits_val(s@.take(i as int)),
            val <= 999,
            i == 0 ==> val == 0,
            i == 1 ==> val <= 9,
            i == 2 ==> val <= 99,
        decreases n - i,
    {
        let c = s.get_char(i);
        match digit_of(c) {
            None => {
                proof {
                    assert(!is_ascii_digit(s@[i as int]));
                }
                return None;
            },
            Some(d) => {
                proof {
                    lemma_digits_val_take_step(s@, i as int);
                    assert(s@.take(i + 1)[i as int] == s@[i as int]);
                    assert(all_digits(s@.take(i + 1)));
                }
                val = 10 * val + d as u32;
            },
        }
        i = i + 1;
    }
    proof {
        assert(s@.take(n as int) =~= s@);
    }
    if val > 255 {
        None
    } else {
        Some(val as u8)
    }
}

/// The address part of the notation: four valid octets separated by dots.
pub open spec fn spec_parse_ipv4(s: Seq<char>) -> Option<(u8, u8, u8, u8)> {
    match split_once_text(s, '.') {
        None => None,
        Some(p0) => match split_once_text(p0.1, '.') {
            None => None,
            Some(p1) => match split_once_text(p1.1, '.') {
                None => None,
                Some(p2) => match (
                    spec_parse_octet(p0.0),
                    spec_parse_octet(p1.0),
                    spec_parse_octet(p2.0),
                    spec_parse_octet(p2.1),
                ) {
                    (Some(a), Some(b), Some(c), Some(d)) => Some((a, b, c, d)),
                    _ => None,
                },
            },
        },
    }
}

/// Parses a dotted-quad IPv4 address.
pub fn parse_ipv4_addr(s: &str) -> (r: Option<(u8, u8, u8, u8)>)
    ensures
        r == spec_parse_ipv4(s@),
{
    match split_once_at(s, '.') {
        None => None,
        Some((t0, r0)) => match split_once_at(r0, '.') {
            None => None,
            Some((t1, r1)) => match split_once_at(r1, '.') {
                None => None,
                Some((t2, t3)) => {
                    let a = parse_octet(t0);
                    let b = parse_octet(t1);
                    let c = parse_octet(t2);
                    let d = parse_octet(t3);
                    match (a, b, c, d) {
                        (Some(a), Some(b), Some(c), Some(d)) => Some((a, b, c, d)),
                        _ => None,
                    }
                },
            },
        },
    }
}

/// The prefix part of the notation, read as `u8::from_str` reads it: an
/// optional leading plus sign, then digits, value at most 255.
pub open spec fn spec_parse_prefix(s: Seq<char>) -> Option<u8> {
    let digits = if s.len() > 0 && s[0] == '+' {
        s.drop_first()
    } else {
        s
    };
    if digits.len() >= 1 && all_digits(digits) && digits_val(digits) <= 255 {
        Some(digits_val(digits) as u8)
    } else {
        None
    }
}

/// Parses the prefix-length part.
pub fn parse_prefix(s: &str) -> (r: Option<u8>)
    ensures
        r == spec_parse_prefix(s@),
{
    let n = s.unicode_len();
    let t: &str = if n > 0 && s.get_char(0) == '+' {
        let rest = s.substring_char(1, n);
        proof {
            assert(rest@ =~= s@.drop_first());
        }
        rest
    } else {
        s
    };
    let m = t.unicode_len();
    if m == 0 {
        return None;
    }
    let mut val: u32 = 0;
    let mut i: usize = 0;
    while i < m
        invariant
            t@ == (if s@.len() > 0 && s@[0] == '+' {
                s@.drop_first()
            } else {
                s@
            }),
            m == t@.len(),
            1 <= m,
            i <= m,
            all_digits(t@.take(i as int)),
            val as int == digits_val(t@.take(i as int)),
            val <= 255,
        decreases m - i,
    {
        let c = t.get_char(i);
        match digit_of(c) {
            None => {
                proof {
                    assert(!is_ascii_digit(t@[i as int]));
                }
                return None;
            },
            Some(d) => {
                proof {
                    lemma_digits_val_take_step(t@, i as int);
                    assert(t@.take(i + 1)[i as int] == t@[i as int]);
                    assert(all_digits(t@.take(i + 1)));
                }
                let next = 10 * val + d as u32;
                if next > 255 {
                    proof {
                        lemma_digits_val_take_monotone(t@, i + 1, t@.len() as int);
                        assert(t@.take(t@.len() as int) =~= t@);
                    }
                    return None;
                }
                val = next;
            },
        }
        i = i + 1;
    }
    proof {
        assert(t@.take(m as int) =~= t@);
    }
    Some(val as u8)
}

/// The whole notation: address and prefix separated by the first slash,
/// prefix length at most 32.
pub open spec fn spec_parse_cidr(s: Seq<char>) -> Option<Ipv4Cidr> {
    match split_once_text(s, '/') {
        None => None,
        Some(p) => match (spec_parse_ipv4(p.0), spec_parse_prefix(p.1)) {
            (Some(q), Some(len)) => {
                if len <= 32 {
                    Some(Ipv4Cidr { a: q.0, b: q.1, c: q.2, d: q.3, prefix: len })
                } else {
                    None
                }
            },
            _ => None,
        },
    }
}

/// Parses an IPv4 CIDR string.  A bare address with no slash is rejected,
/// as is a prefix length over 32; host bits are not rejected here but
/// masked off by `network_octets`.
pub fn parse_cidr(s: &str) -> (r: Option<Ipv4Cidr>)
    ensures
        r == spec_parse_cidr(s@),
        (match r {
            Some(c) => c.wf(),
            None => true,
        }),
{
    match split_once_at(s, '/') {
        None => None,
        Some((ip_text, prefix_text)) => {
            let quad = parse_ipv4_addr(ip_text);
            let prefix = parse_prefix(prefix_text);
            match (quad, prefix) {
                (Some(q), Some(len)) => {
                    if len <= 32 {
                        Some(Ipv4Cidr { a: q.0, b: q.1, c: q.2, d: q.3, prefix: len })
                    } else {
                        None
                    }
                },
                _ => None,
            }
        },
    }
}

/// The netmask octet covering bit positions `bits` deep into one octet:
/// the `bits` highest bits set, all eight for `bits` of eight or more.
pub open spec fn mask_octet(bits: int) -> u8 {
    if bits <= 0 {
        0
    } else if bits == 1 {
        128
    } else if bits == 2 {
        192
    } else if bits == 3 {
        224
    } else if bits == 4 {
        240
    } else if bits == 5 {
        248
    } else if bits == 6 {
        252
    } else if bits == 7 {
        254
    } else {
        255
    }
}

/// Law: `mask_octet(bits)` is exactly the octet with the `bits` highest
/// bits set, so a netmask derived octet by octet from the prefix length
/// masks off precisely the host bits.
pub proof fn lemma_mask_octet_is_high_bits(bits: u8)
    requires
        bits <= 8,
    ensures
        mask_octet(bits as int) == !(0xffu8 >> bits),
{
    if bits == 0 {
        assert(!(0xffu8 >> 0) == 0) by (bit_vector);
    } else if bits == 1 {
        assert(!(0xffu8 >> 1) == 128) by (bit_vector);
    } else if bits == 2 {
        assert(!(0xffu8 >> 2) == 192) by (bit_vector);
    } else if bits == 3 {
        assert(!(0xffu8 >> 3) == 224) by (bit_vector);
    } else if bits == 4 {
        assert(!(0xffu8 >> 4) == 240) by (bit_vector);
    } else if bits == 5 {
        assert(!(0xffu8 >> 5) == 248) by (bit_vector);
    } else if bits == 6 {
        assert(!(0xffu8 >> 6) == 252) by (bit_vector);
    } else if bits == 7 {
        assert(!(0xffu8 >> 7) == 254) by (bit_vector);
    } else {
        assert(!(0xffu8 >> 8) == 255) by (bit_vector);
    }
}

fn mask_octet_at(prefix: u8, offset: u8) -> (r: u8)
    ensures
        r == mask_octet(prefix as int - offset as int),
{
    if prefix <= offset {
        0
    } else {
        let bits = prefix - offset;
        if bits == 1 {
            128
        } else if bits == 2 {
            192
        } else if bits == 3 {
            224
        } else if bits == 4 {
            240
        } else if bits == 5 {
            248
        } else if bits == 6 {
            252
        } else if bits == 7 {
            254
        } else {
            255
        }
    }
}

impl Ipv4Cidr {
    pub open spec fn wf(&self) -> bool {
        self.prefix <= 32
    }

    /// The netmask the prefix length stands for, as four octets.
    pub open spec fn spec_netmask(&self) -> (u8, u8, u8, u8) {
        (
            mask_octet(self.prefix as int),
            mask_octet(self.prefix as int - 8),
            mask_octet(self.prefix as int - 16),
            mask_octet(self.prefix as int - 24),
        )
    }

    /// The network address: the parsed address with the host bits masked off.
    pub open spec fn spec_network(&self) -> (u8, u8, u8, u8) {
        (
            self.a & mask_octet(self.prefix as int),
            self.b & mask_octet(self.prefix as int - 8),
            self.c & mask_octet(self.prefix as int - 16),
            self.d & mask_octet(self.prefix as int - 24),
        )
    }

    pub fn netmask_octets(&self) -> (r: (u8, u8, u8, u8))
        ensures
            r == self.spec_netmask(),
    {
        (
            mask_octet_at(self.prefix, 0),
            mask_octet_at(self.prefix, 8),
            mask_octet_at(self.prefix, 16),
            mask_octet_at(self.prefix, 24),
        )
    }

    pub fn network_octets(&self) -> (r: (u8, u8, u8, u8))
        ensures
            r == self.spec_network(),
    {
        let m = self.netmask_octets();
        (self.a & m.0, self.b & m.1, self.c & m.2, self.d & m.3)
    }
}

/// The dotted-quad text of four octets.
pub open spec fn quad_text(q: (u8, u8, u8, u8)) -> Seq<char> {
    dec_nat(q.0 as nat) + seq!['.'] + dec_nat(q.1 as nat) + seq!['.'] + dec_nat(q.2 as nat)
        + seq!['.'] + dec_nat(q.3 as nat)
}

/// Renders four octets as dotted-quad text.
pub fn format_quad(q: (u8, u8, u8, u8)) -> (r: String)
    ensures
        r@ == quad_text(q),
{
    let mut s = String::new();
    push_u64(&mut s, q.0 as u64);
    s.append(".");
    push_u64(&mut s, q.1 as u64);
    s.append(".");
    push_u64(&mut s, q.2 as u64);
    s.append(".");
    push_u64(&mut s, q.3 as u64);
    proof {
        reveal_strlit(".");
        assert(s@ =~= quad_text(q));
    }
    s
}

} // verus!
