use ip_to_acl::api::{
    acl_create_path, acl_create_request_body, acl_entry_path, clone_version_path, version_list_path,
};
use ip_to_acl::errors::ProvisionError;
use ip_to_acl::input::Root;
use ip_to_acl::report::{collect_failures, UploadReport};
use ip_to_acl::versions::{
    resolve_acl_id, resolve_active_version, resolve_draft_version, VersionInfo,
};

fn v(number: i64, active: bool) -> VersionInfo {
    VersionInfo { number, active }
}

#[test]
fn single_active_version_is_resolved() {
    let versions = vec![v(1, false), v(3, true), v(2, false)];
    assert_eq!(resolve_active_version(Some(&versions)), Ok(3));
}

#[test]
fn no_active_version_is_fatal() {
    let versions = vec![v(1, false), v(2, false)];
    assert_eq!(
        resolve_active_version(Some(&versions)),
        Err(ProvisionError::NoActiveVersion)
    );
}

#[test]
fn empty_listing_is_fatal() {
    let versions: Vec<VersionInfo> = vec![];
    assert_eq!(
        resolve_active_version(Some(&versions)),
        Err(ProvisionError::NoActiveVersion)
    );
}

#[test]
fn discarded_listing_is_fatal() {
    assert_eq!(
        resolve_active_version(None),
        Err(ProvisionError::NoActiveVersion)
    );
}

#[test]
fn last_active_version_wins() {
    let versions = vec![v(1, true), v(4, true), v(2, false)];
    assert_eq!(resolve_active_version(Some(&versions)), Ok(4));
}

#[test]
fn nonpositive_active_version_is_fatal() {
    let versions = vec![v(-5, true)];
    assert_eq!(
        resolve_active_version(Some(&versions)),
        Err(ProvisionError::NoActiveVersion)
    );
}

#[test]
fn draft_version_accepted_when_positive() {
    assert_eq!(resolve_draft_version(Some(5)), Ok(5));
}

#[test]
fn nonpositive_draft_version_is_fatal() {
    assert_eq!(resolve_draft_version(Some(0)), Err(ProvisionError::NoDraftVersion));
    assert_eq!(resolve_draft_version(Some(-3)), Err(ProvisionError::NoDraftVersion));
    assert_eq!(resolve_draft_version(None), Err(ProvisionError::NoDraftVersion));
}

#[test]
fn acl_id_accepted_when_real() {
    assert_eq!(resolve_acl_id(Some(String::from("2d4bNGVlUyBBLWUgG1DES3"))), Ok(String::from("2d4bNGVlUyBBLWUgG1DES3")));
}

#[test]
fn null_acl_id_is_fatal() {
    assert_eq!(resolve_acl_id(Some(String::from("null"))), Err(ProvisionError::NoAclId));
    assert_eq!(resolve_acl_id(None), Err(ProvisionError::NoAclId));
}

#[test]
fn empty_acl_id_is_fatal() {
    assert_eq!(resolve_acl_id(Some(String::new())), Err(ProvisionError::NoAclId));
}

#[test]
fn error_messages_match_abort_text() {
    assert_eq!(
        ProvisionError::NoActiveVersion.message(),
        "No version active. Please activate a version and try again."
    );
    assert_eq!(
        ProvisionError::NoDraftVersion.message(),
        "No draft version available. Please activate a version and try again."
    );
    assert_eq!(
        ProvisionError::NoAclId.message(),
        "No acl id available. Please activate a version and try again."
    );
}

#[test]
fn report_keeps_only_failures_in_order() {
    let entries = vec![
        String::from("192.168.1.0/24"),
        String::from("10.0.0.1"),
        String::from("not-an-ip"),
    ];
    let succeeded = vec![true, true, false];
    let failed = collect_failures(&entries, &succeeded);
    assert_eq!(failed, vec![String::from("not-an-ip")]);
}

#[test]
fn report_empty_when_all_succeed() {
    let entries = vec![String::from("192.168.1.0/24"), String::from("10.0.0.1")];
    let succeeded = vec![true, true];
    assert_eq!(collect_failures(&entries, &succeeded), Vec::<String>::new());
}

#[test]
fn report_records_incrementally() {
    let mut report = UploadReport::new();
    report.record(String::from("192.168.1.0/24"), true);
    report.record(String::from("not-an-ip"), false);
    report.record(String::from("10.0.0.1"), true);
    assert_eq!(report.failed_ips, vec![String::from("not-an-ip")]);
}

#[test]
fn api_paths_are_exact() {
    assert_eq!(version_list_path("SU1wc0crTNCgXspmamg8k"), "/service/SU1wc0crTNCgXspmamg8k/version");
    assert_eq!(
        clone_version_path("SU1wc0crTNCgXspmamg8k", 7),
        "/service/SU1wc0crTNCgXspmamg8k/version/7/clone"
    );
    assert_eq!(
        acl_create_path("SU1wc0crTNCgXspmamg8k", 8),
        "/service/SU1wc0crTNCgXspmamg8k/version/8/acl"
    );
    assert_eq!(
        acl_entry_path("SU1wc0crTNCgXspmamg8k", "2d4bNGVlUyBBLWUgG1DES3"),
        "/service/SU1wc0crTNCgXspmamg8k/acl/2d4bNGVlUyBBLWUgG1DES3/entry"
    );
}

#[test]
fn acl_name_is_a_fixed_placeholder() {
    assert_eq!(acl_create_request_body(), "name=placeholder_name");
    // A second run sends the very same creation body: nothing in it depends
    // on the draft version, so rerunning makes a second ACL under the same
    // name instead of finding the first.
    assert_eq!(acl_create_request_body(), acl_create_request_body());
}

#[test]
fn three_entry_run_reports_only_the_rejected_literal() {
    // The run over ["192.168.1.0/24", "10.0.0.1", "not-an-ip"]: the first
    // two uploads come back successful, the third does not.  The report
    // holds exactly the original third string.
    let acl_id = "2d4bNGVlUyBBLWUgG1DES3";
    let entries = vec![
        String::from("192.168.1.0/24"),
        String::from("10.0.0.1"),
        String::from("not-an-ip"),
    ];
    let mut report = UploadReport::new();
    for (i, entry) in entries.iter().enumerate() {
        let plan = ip_to_acl::entry::plan_entry(entry, acl_id);
        if i == 0 {
            assert_eq!(plan.ip, "192.168.1.0");
            assert_eq!(plan.subnet.as_deref(), Some("255.255.255.0"));
        } else {
            assert_eq!(plan.ip, entry.as_str());
            assert_eq!(plan.subnet, None);
        }
        let succeeded = i != 2;
        report.record(entry.clone(), succeeded);
    }
    assert_eq!(report.failed_ips, vec![String::from("not-an-ip")]);
}

#[test]
fn multiple_failures_keep_input_order() {
    let entries = vec![
        String::from("not-an-ip"),
        String::from("10.0.0.1"),
        String::from("also bad"),
    ];
    let succeeded = vec![false, true, false];
    assert_eq!(
        collect_failures(&entries, &succeeded),
        vec![String::from("not-an-ip"), String::from("also bad")]
    );
}

#[test]
fn root_holds_the_ordered_list() {
    let root = Root::new(vec![String::from("10.0.0.1"), String::from("192.168.1.0/24")]);
    assert_eq!(root.ip_list.len(), 2);
    assert_eq!(root.ip_list[0], "10.0.0.1");
    assert_eq!(root.ip_list[1], "192.168.1.0/24");
    let empty = Root::default();
    assert_eq!(empty.ip_list.len(), 0);
}
