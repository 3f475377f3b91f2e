use ip_to_acl::entry::plan_entry;
use ip_to_acl::ipv6::format_ipv6_netmask;

#[test]
fn ipv6_cidr_uploads_masked_network_and_netmask() {
    let plan = plan_entry("2001:db8::ff00:42:8329/32", "2d4bNGVlUyBBLWUgG1DES3");
    assert_eq!(plan.ip, "2001:db8::");
    assert_eq!(plan.subnet.as_deref(), Some("ffff:ffff::"));
    assert_eq!(
        plan.body,
        "{\"comment\":\"\",\"created_at\":null,\"ip\":\"2001:db8::\",\"negated\":false,\"subnet\":\"ffff:ffff::\",\"acl_id\":\"2d4bNGVlUyBBLWUgG1DES3\",\"service_id\":null}"
    );
}

#[test]
fn ipv6_prefix_zero_truncates_everything() {
    let plan = plan_entry("2001:db8::1/0", "x");
    assert_eq!(plan.ip, "::");
    assert_eq!(plan.subnet.as_deref(), Some("::"));
}

#[test]
fn ipv6_full_prefix_keeps_everything() {
    let plan = plan_entry("2001:db8::1/128", "x");
    assert_eq!(plan.ip, "2001:db8::1");
    assert_eq!(
        plan.subnet.as_deref(),
        Some("ffff:ffff:ffff:ffff:ffff:ffff:ffff:ffff")
    );
}

#[test]
fn ipv6_mid_group_prefix() {
    let plan = plan_entry("2001:db8:1234::/33", "x");
    assert_eq!(plan.ip, "2001:db8::");
    assert_eq!(plan.subnet.as_deref(), Some("ffff:ffff:8000::"));
}

#[test]
fn ipv6_netmask_rendering_exact() {
    assert_eq!(format_ipv6_netmask(0), "::");
    assert_eq!(format_ipv6_netmask(1), "8000::");
    assert_eq!(format_ipv6_netmask(16), "ffff::");
    assert_eq!(format_ipv6_netmask(33), "ffff:ffff:8000::");
    assert_eq!(format_ipv6_netmask(64), "ffff:ffff:ffff:ffff::");
    assert_eq!(format_ipv6_netmask(96), "ffff:ffff:ffff:ffff:ffff:ffff::");
    assert_eq!(format_ipv6_netmask(97), "ffff:ffff:ffff:ffff:ffff:ffff:8000:0");
    assert_eq!(format_ipv6_netmask(112), "ffff:ffff:ffff:ffff:ffff:ffff:ffff:0");
    assert_eq!(format_ipv6_netmask(113), "ffff:ffff:ffff:ffff:ffff:ffff:ffff:8000");
    assert_eq!(format_ipv6_netmask(128), "ffff:ffff:ffff:ffff:ffff:ffff:ffff:ffff");
}

#[test]
fn ipv6_bare_address_uploads_literally() {
    let plan = plan_entry("2001:db8::1", "x");
    assert_eq!(plan.ip, "2001:db8::1");
    assert_eq!(plan.subnet, None);
}

#[test]
fn ipv6_bad_prefix_uploads_literally() {
    let plan = plan_entry("2001:db8::/129", "x");
    assert_eq!(plan.ip, "2001:db8::/129");
    assert_eq!(plan.subnet, None);
    let plan = plan_entry("zz::/32", "x");
    assert_eq!(plan.ip, "zz::/32");
    assert_eq!(plan.subnet, None);
}

#[test]
fn ipv6_network_agrees_with_ip_network_crate() {
    let samples = [
        "2001:db8::ff00:42:8329/32",
        "2001:db8::1/128",
        "::1/64",
        "fe80::dead:beef/10",
        "2001:db8:1234::/33",
        "::/0",
    ];
    for s in samples {
        let plan = plan_entry(s, "x");
        let theirs = ip_network::IpNetwork::from_str_truncate(s).unwrap();
        assert_eq!(plan.ip, format!("{}", theirs.network_address()));
    }
}
