use ip_to_acl::entry::{build_entry_body, plan_entry};

#[test]
fn cidr_entry_uploads_masked_network_and_netmask() {
    let plan = plan_entry("10.0.0.5/24", "2d4bNGVlUyBBLWUgG1DES3");
    assert_eq!(plan.ip, "10.0.0.0");
    assert_eq!(plan.subnet.as_deref(), Some("255.255.255.0"));
    assert_eq!(
        plan.body,
        "{\"comment\":\"\",\"created_at\":null,\"ip\":\"10.0.0.0\",\"negated\":false,\"subnet\":\"255.255.255.0\",\"acl_id\":\"2d4bNGVlUyBBLWUgG1DES3\",\"service_id\":null}"
    );
}

#[test]
fn bare_ip_uploads_literally_without_subnet() {
    let plan = plan_entry("10.0.0.1", "2d4bNGVlUyBBLWUgG1DES3");
    assert_eq!(plan.ip, "10.0.0.1");
    assert_eq!(plan.subnet, None);
    assert_eq!(
        plan.body,
        "{\"comment\":\"\",\"created_at\":null,\"ip\":\"10.0.0.1\",\"negated\":false,\"subnet\":null,\"acl_id\":\"2d4bNGVlUyBBLWUgG1DES3\",\"service_id\":null}"
    );
}

#[test]
fn unparsable_entry_uploads_literally() {
    let plan = plan_entry("not-an-ip", "2d4bNGVlUyBBLWUgG1DES3");
    assert_eq!(plan.ip, "not-an-ip");
    assert_eq!(plan.subnet, None);
    assert_eq!(
        plan.body,
        "{\"comment\":\"\",\"created_at\":null,\"ip\":\"not-an-ip\",\"negated\":false,\"subnet\":null,\"acl_id\":\"2d4bNGVlUyBBLWUgG1DES3\",\"service_id\":null}"
    );
}

#[test]
fn truncated_entry_keeps_original_only_in_report_not_in_body() {
    // The body always carries the masked address; the original spelling of
    // the entry is what a failure report would carry.
    let plan = plan_entry("192.168.1.255/24", "a1");
    assert_eq!(plan.ip, "192.168.1.0");
    assert_eq!(plan.subnet.as_deref(), Some("255.255.255.0"));
}

#[test]
fn body_builder_is_exact() {
    assert_eq!(
        build_entry_body("1.2.3.0", Some("255.255.255.0"), "x"),
        "{\"comment\":\"\",\"created_at\":null,\"ip\":\"1.2.3.0\",\"negated\":false,\"subnet\":\"255.255.255.0\",\"acl_id\":\"x\",\"service_id\":null}"
    );
    assert_eq!(
        build_entry_body("1.2.3.4", None, "x"),
        "{\"comment\":\"\",\"created_at\":null,\"ip\":\"1.2.3.4\",\"negated\":false,\"subnet\":null,\"acl_id\":\"x\",\"service_id\":null}"
    );
}

#[test]
fn prefix_zero_entry_uploads_zero_network() {
    let plan = plan_entry("10.0.0.5/0", "x");
    assert_eq!(plan.ip, "0.0.0.0");
    assert_eq!(plan.subnet.as_deref(), Some("0.0.0.0"));
}
