use vstd::prelude::*;

use crate::cidr::{format_quad, parse_cidr, quad_text, spec_parse_cidr};
use crate::ipv6::{format_ipv6_netmask, ipv6_netmask_text, ipv6_network_of, parse_ipv6_network};

verus! {

/// Everything decided about one input entry before its upload: the `ip`
/// value of the body, the optional `subnet` netmask, and the JSON body
/// itself.
pub struct AclEntryPlan {
    pub ip: String,
    pub subnet: Option<String>,
    pub body: String,
}

/// The JSON body of an entry upload that carries a netmask.
pub open spec fn body_with_subnet(ip: Seq<char>, subnet: Seq<char>, acl_id: Seq<char>) -> Seq<
    char,
> {
    "{\"comment\":\"\",\"created_at\":null,\"ip\":\""@ + ip
        + "\",\"negated\":false,\"subnet\":\""@ + subnet + "\",\"acl_id\":\""@ + acl_id
        + "\",\"service_id\":null}"@
}

/// The JSON body of an entry upload with no netmask.
pub open spec fn body_without_subnet(ip: Seq<char>, acl_id: Seq<char>) -> Seq<char> {
    "{\"comment\":\"\",\"created_at\":null,\"ip\":\""@ + ip
        + "\",\"negated\":false,\"subnet\":null,\"acl_id\":\""@ + acl_id
        + "\",\"service_id\":null}"@
}

/// Builds the JSON body of one entry upload.  The interpolated strings are
/// not escaped: the body is exactly the concatenation the specs above give.
pub fn build_entry_body(ip: &str, subnet: Option<&str>, acl_id: &str) -> (r: String)
    ensures
        (match subnet {
            Some(m) => r@ == body_with_subnet(ip@, m@, acl_id@),
            None => r@ == body_without_subnet(ip@, acl_id@),
        }),
{
    let mut s = String::new();
    s.append("{\"comment\":\"\",\"created_at\":null,\"ip\":\"");
    s.append(ip);
    match subnet {
        Some(m) => {
            s.append("\",\"negated\":false,\"subnet\":\"");
            s.append(m);
            s.append("\",\"acl_id\":\"");
        },
        None => {
            s.append("\",\"negated\":false,\"subnet\":null,\"acl_id\":\"");
        },
    }
    s.append(acl_id);
    s.append("\",\"service_id\":null}");
    proof {
        match subnet {
            Some(m) => {
                assert(s@ =~= body_with_subnet(ip@, m@, acl_id@));
            },
            None => {
                assert(s@ =~= body_without_subnet(ip@, acl_id@));
            },
        }
    }
    s
}

/// Decides one entry of the input list.  An entry that parses as an IPv4
/// CIDR is uploaded as its masked network address with the derived dotted
/// netmask; one that parses as an IPv6 CIDR is uploaded as its masked
/// network address with the netmask rendered as IPv6 text; any other entry
/// is uploaded literally, with no netmask.
pub fn plan_entry(entry: &str, acl_id: &str) -> (r: AclEntryPlan)
    ensures
        (match spec_parse_cidr(entry@) {
            Some(c) => {
                &&& r.ip@ == quad_text(c.spec_network())
                &&& (match r.subnet {
                    Some(m) => m@ == quad_text(c.spec_netmask()),
                    None => false,
                })
                &&& r.body@ == body_with_subnet(
                    quad_text(c.spec_network()),
                    quad_text(c.spec_netmask()),
                    acl_id@,
                )
            },
            None => (match ipv6_network_of(entry@) {
                Some(q) => {
                    &&& r.ip@ == q.0
                    &&& (match r.subnet {
                        Some(m) => m@ == ipv6_netmask_text(q.1 as int),
                        None => false,
                    })
                    &&& r.body@ == body_with_subnet(q.0, ipv6_netmask_text(q.1 as int), acl_id@)
                },
                None => {
                    &&& r.ip@ == entry@
                    &&& r.subnet is None
                    &&& r.body@ == body_without_subnet(entry@, acl_id@)
                },
            }),
        }),
{
    match parse_cidr(entry) {
        Some(c) => {
            let ip = format_quad(c.network_octets());
            let mask = format_quad(c.netmask_octets());
            let body = build_entry_body(ip.as_str(), Some(mask.as_str()), acl_id);
            AclEntryPlan { ip, subnet: Some(mask), body }
        },
        None => match parse_ipv6_network(entry) {
            Some((addr, prefix)) => {
                let mask = format_ipv6_netmask(prefix);
                let body = build_entry_body(addr.as_str(), Some(mask.as_str()), acl_id);
                AclEntryPlan { ip: addr, subnet: Some(mask), body }
            },
            None => {
                let ip = String::from_str(entry);
                let body = build_entry_body(entry, None, acl_id);
                AclEntryPlan { ip, subnet: None, body }
            },
        },
    }
}

} // verus!
