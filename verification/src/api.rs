use vstd::prelude::*;

use crate::text::{dec_nat, push_u64};

verus! {

/// Path of the version listing call.
pub open spec fn version_list_path_text(service_id: Seq<char>) -> Seq<char> {
    "/service/"@ + service_id + "/version"@
}

/// Path of the clone call for one version.
pub open spec fn clone_version_path_text(service_id: Seq<char>, version: nat) -> Seq<char> {
    "/service/"@ + service_id + "/version/"@ + dec_nat(version) + "/clone"@
}

/// Path of the ACL creation call on one draft version.
pub open spec fn acl_create_path_text(service_id: Seq<char>, draft: nat) -> Seq<char> {
    "/service/"@ + service_id + "/version/"@ + dec_nat(draft) + "/acl"@
}

/// Path of the entry upload call for one ACL.
pub open spec fn acl_entry_path_text(service_id: Seq<char>, acl_id: Seq<char>) -> Seq<char> {
    "/service/"@ + service_id + "/acl/"@ + acl_id + "/entry"@
}

pub fn version_list_path(service_id: &str) -> (r: String)
    ensures
        r@ == version_list_path_text(service_id@),
{
    let mut s = String::new();
    s.append("/service/");
    s.append(service_id);
    s.append("/version");
    proof {
        assert(s@ =~= version_list_path_text(service_id@));
    }
    s
}

pub fn clone_version_path(service_id: &str, version: i64) -> (r: String)
    requires
        version >= 1,
    ensures
        r@ == clone_version_path_text(service_id@, version as nat),
{
    let mut s = String::new();
    s.append("/service/");
    s.append(service_id);
    s.append("/version/");
    push_u64(&mut s, version as u64);
    s.append("/clone");
    proof {
        assert(s@ =~= clone_version_path_text(service_id@, version as nat));
    }
    s
}

pub fn acl_create_path(service_id: &str, draft: i64) -> (r: String)
    requires
        draft >= 1,
    ensures
        r@ == acl_create_path_text(service_id@, draft as nat),
{
    let mut s = String::new();
    s.append("/service/");
    s.append(service_id);
    s.append("/version/");
    push_u64(&mut s, draft as u64);
    s.append("/acl");
    proof {
        assert(s@ =~= acl_create_path_text(service_id@, draft as nat));
    }
    s
}

pub fn acl_entry_path(service_id: &str, acl_id: &str) -> (r: String)
    ensures
        r@ == acl_entry_path_text(service_id@, acl_id@),
{
    let mut s = String::new();
    s.append("/service/");
    s.append(service_id);
    s.append("/acl/");
    s.append(acl_id);
    s.append("/entry");
    proof {
        assert(s@ =~= acl_entry_path_text(service_id@, acl_id@));
    }
    s
}

/// The body of the ACL creation call.  The name is a fixed placeholder: it
/// does not depend on the draft version or on anything else, so a second
/// run creates a second ACL under the same name rather than reusing the
/// first.
pub fn acl_create_request_body() -> (r: &'static str)
    ensures
        r@ == "name=placeholder_name"@,
{
    "name=placeholder_name"
}

} // verus!
