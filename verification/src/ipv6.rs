use vstd::prelude::*;

use crate::text::{hex_nat, push_hex_u16};

verus! {

/// What the IPv6 side of the CIDR parser makes of a string: `None` where
/// the string is not an IPv6 network in CIDR notation, otherwise the text
/// of the masked network address (host bits truncated, rendered in the
/// parser's canonical form) and the prefix length.  The result depends on
/// the string alone.
pub uninterp spec fn ipv6_network_of(s: Seq<char>) -> Option<(Seq<char>, u8)>;

/// Relies on `ip_network::Ipv6Network::from_str_truncate`: it splits the
/// string at the first slash, parses the address part as IPv6 and the
/// prefix part as a `u8`, rejects a prefix over 128, and masks the host
/// bits off the address.  The network address text is its standard
/// rendering.
#[verifier::external_body]
pub(crate) fn parse_ipv6_network(s: &str) -> (r: Option<(String, u8)>)
    ensures
        (match (r, ipv6_network_of(s@)) {
            (Some(p), Some(q)) => p.0@ == q.0 && p.1 == q.1,
            (None, None) => true,
            _ => false,
        }),
        (match r {
            Some(p) => p.1 <= 128,
            None => true,
        }),
{
    match ip_network::Ipv6Network::from_str_truncate(s) {
        Ok(net) => Some((net.network_address().to_string(), net.netmask())),
        Err(_) => None,
    }
}

/// The group of an IPv6 netmask covering `bits` bit positions within one
/// sixteen-bit group: the `bits` highest bits set, all sixteen for `bits`
/// of sixteen or more.
pub open spec fn mask16(bits: int) -> u16 {
    if bits <= 0 {
        0
    } else if bits == 1 {
        0x8000
    } else if bits == 2 {
        0xc000
    } else if bits == 3 {
        0xe000
    } else if bits == 4 {
        0xf000
    } else if bits == 5 {
        0xf800
    } else if bits == 6 {
        0xfc00
    } else if bits == 7 {
        0xfe00
    } else if bits == 8 {
        0xff00
    } else if bits == 9 {
        0xff80
    } else if bits == 10 {
        0xffc0
    } else if bits == 11 {
        0xffe0
    } else if bits == 12 {
        0xfff0
    } else if bits == 13 {
        0xfff8
    } else if bits == 14 {
        0xfffc
    } else if bits == 15 {
        0xfffe
    } else {
        0xffff
    }
}

/// Law: `mask16(bits)` is exactly the group with the `bits` highest bits
/// set, so a netmask derived group by group from the prefix length masks
/// off precisely the host bits.
pub proof fn lemma_mask16_is_high_bits(bits: u16)
    requires
        bits <= 16,
    ensures
        mask16(bits as int) == !(0xffffu16 >> bits),
{
    if bits == 0 {
        assert(!(0xffffu16 >> 0) == 0) by (bit_vector);
    } else if bits == 1 {
        assert(!(0xffffu16 >> 1) == 0x8000) by (bit_vector);
    } else if bits == 2 {
        assert(!(0xffffu16 >> 2) == 0xc000) by (bit_vector);
    } else if bits == 3 {
        assert(!(0xffffu16 >> 3) == 0xe000) by (bit_vector);
    } else if bits == 4 {
        assert(!(0xffffu16 >> 4) == 0xf000) by (bit_vector);
    } else if bits == 5 {
        assert(!(0xffffu16 >> 5) == 0xf800) by (bit_vector);
    } else if bits == 6 {
        assert(!(0xffffu16 >> 6) == 0xfc00) by (bit_vector);
    } else if bits == 7 {
        assert(!(0xffffu16 >> 7) == 0xfe00) by (bit_vector);
    } else if bits == 8 {
        assert(!(0xffffu16 >> 8) == 0xff00) by (bit_vector);
    } else if bits == 9 {
        assert(!(0xffffu16 >> 9) == 0xff80) by (bit_vector);
    } else if bits == 10 {
        assert(!(0xffffu16 >> 10) == 0xffc0) by (bit_vector);
    } else if bits == 11 {
        assert(!(0xffffu16 >> 11) == 0xffe0) by (bit_vector);
    } else if bits == 12 {
        assert(!(0xffffu16 >> 12) == 0xfff0) by (bit_vector);
    } else if bits == 13 {
        assert(!(0xffffu16 >> 13) == 0xfff8) by (bit_vector);
    } else if bits == 14 {
        assert(!(0xffffu16 >> 14) == 0xfffc) by (bit_vector);
    } else if bits == 15 {
        assert(!(0xffffu16 >> 15) == 0xfffe) by (bit_vector);
    } else {
        assert(!(0xffffu16 >> 16) == 0xffff) by (bit_vector);
    }
}

fn mask16_at(prefix: u8, offset: u8) -> (r: u16)
    ensures
        r == mask16(prefix as int - offset as int),
{
    if prefix <= offset {
        0
    } else {
        let bits = prefix - offset;
        if bits == 1 {
            0x8000
        } else if bits == 2 {
            0xc000
        } else if bits == 3 {
            0xe000
        } else if bits == 4 {
            0xf000
        } else if bits == 5 {
            0xf800
        } else if bits == 6 {
            0xfc00
        } else if bits == 7 {
            0xfe00
        } else if bits == 8 {
            0xff00
        } else if bits == 9 {
            0xff80
        } else if bits == 10 {
            0xffc0
        } else if bits == 11 {
            0xffe0
        } else if bits == 12 {
            0xfff0
        } else if bits == 13 {
            0xfff8
        } else if bits == 14 {
            0xfffc
        } else if bits == 15 {
            0xfffe
        } else {
            0xffff
        }
    }
}

/// The text of the first `n` netmask groups, joined by colons.
pub open spec fn mask_groups_text(prefix: int, n: int) -> Seq<char>
    decreases n,
{
    if n <= 0 {
        Seq::empty()
    } else if n == 1 {
        hex_nat(mask16(prefix) as nat)
    } else {
        mask_groups_text(prefix, n - 1) + seq![':'] + hex_nat(mask16(prefix - 16 * (n - 1)) as nat)
    }
}

/// The netmask a prefix length stands for, rendered as IPv6 text: lowercase
/// hexadecimal groups without leading zeros, and the tail of zero groups --
/// in a netmask, zeros only ever form a tail -- compressed to `::` where it
/// is two or more groups long, kept as a single `0` group otherwise.
pub open spec fn ipv6_netmask_text(prefix: int) -> Seq<char> {
    let full = if prefix <= 0 {
        0
    } else {
        (prefix - 1) / 16 + 1
    };
    if full == 0 {
        "::"@
    } else if full <= 6 {
        mask_groups_text(prefix, full) + "::"@
    } else if full == 7 {
        mask_groups_text(prefix, 7) + ":0"@
    } else {
        mask_groups_text(prefix, 8)
    }
}

/// Renders the netmask of an IPv6 prefix length.
pub fn format_ipv6_netmask(prefix: u8) -> (r: String)
    requires
        prefix <= 128,
    ensures
        r@ == ipv6_netmask_text(prefix as int),
{
    if prefix == 0 {
        return String::from_str("::");
    }
    let full: usize = ((prefix - 1) / 16 + 1) as usize;
    let mut s = String::new();
    let mut i: usize = 0;
    while i < full
        invariant
            1 <= prefix <= 128,
            full == (prefix as int - 1) / 16 + 1,
            1 <= full <= 8,
            i <= full,
            s@ == mask_groups_text(prefix as int, i as int),
        decreases full - i,
    {
        if i > 0 {
            s.append(":");
        }
        let g = mask16_at(prefix, (16 * i) as u8);
        push_hex_u16(&mut s, g);
        proof {
            reveal_strlit(":");
            assert(s@ =~= mask_groups_text(prefix as int, i as int + 1));
        }
        i = i + 1;
    }
    if full <= 6 {
        s.append("::");
    } else if full == 7 {
        s.append(":0");
    }
    proof {
        assert(s@ =~= ipv6_netmask_text(prefix as int));
    }
    s
}

} // verus!
