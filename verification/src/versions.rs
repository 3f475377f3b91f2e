use vstd::prelude::*;

use crate::errors::ProvisionError;

verus! {

/// What the resolver reads of one record of the version listing: its number
/// and whether it is the active one.  The other metadata of a version is not
/// consulted anywhere.
#[derive(Clone, Copy, Debug, PartialEq, Eq, Structural)]
pub struct VersionInfo {
    pub number: i64,
    pub active: bool,
}

/// The number of the last version marked active in `vs`, or 0 where none is.
/// Version numbers are positive; a listing with no active entry, or whose
/// winning entry carries a non-positive number, is fatal.
pub open spec fn last_active_number(vs: Seq<VersionInfo>) -> int
    decreases vs.len(),
{
    if vs.len() == 0 {
        0
    } else if vs.last().active {
        vs.last().number as int
    } else {
        last_active_number(vs.drop_last())
    }
}

/// Picks the active version out of the listing: the last entry with
/// `active == true` wins, and the result is a positive version number.
/// `response` is `None` where the listing call did not return a successful
/// status and its body was discarded; that case falls through to the same
/// fatal condition as an empty listing.
pub fn resolve_active_version(response: Option<&Vec<VersionInfo>>) -> (r: Result<
    i64,
    ProvisionError,
>)
    ensures
        (match response {
            None => r == Err::<i64, ProvisionError>(ProvisionError::NoActiveVersion),
            Some(vs) => {
                if last_active_number(vs@) <= 0 {
                    r == Err::<i64, ProvisionError>(ProvisionError::NoActiveVersion)
                } else {
                    r == Ok::<i64, ProvisionError>(last_active_number(vs@) as i64)
                }
            },
        }),
{
    match response {
        None => Err(ProvisionError::NoActiveVersion),
        Some(vs) => {
            let mut active_version: i64 = 0;
            let n = vs.len();
            let mut i: usize = 0;
            while i < n
                invariant
                    n == vs@.len(),
                    i <= n,
                    active_version as int == last_active_number(vs@.take(i as int)),
                decreases n - i,
            {
                if vs[i].active {
                    active_version = vs[i].number;
                }
                proof {
                    assert(vs@.take(i + 1).drop_last() =~= vs@.take(i as int));
                    assert(vs@.take(i + 1).last() == vs@[i as int]);
                }
                i = i + 1;
            }
            proof {
                assert(vs@.take(n as int) =~= vs@);
            }
            if active_version <= 0 {
                Err(ProvisionError::NoActiveVersion)
            } else {
                Ok(active_version)
            }
        },
    }
}

/// Validates the draft version number taken from the clone call's response,
/// `None` where the call did not return a successful status.  A draft
/// version number is positive; anything else means no draft was obtained
/// and is fatal.
pub fn resolve_draft_version(response: Option<i64>) -> (r: Result<i64, ProvisionError>)
    ensures
        (match response {
            None => r == Err::<i64, ProvisionError>(ProvisionError::NoDraftVersion),
            Some(n) => {
                if n <= 0 {
                    r == Err::<i64, ProvisionError>(ProvisionError::NoDraftVersion)
                } else {
                    r == Ok::<i64, ProvisionError>(n)
                }
            },
        }),
{
    match response {
        None => Err(ProvisionError::NoDraftVersion),
        Some(n) => {
            if n <= 0 {
                Err(ProvisionError::NoDraftVersion)
            } else {
                Ok(n)
            }
        },
    }
}

/// Validates the ACL id taken from the creation call's response, `None`
/// where the call did not return a successful status.  An ACL id is a
/// non-empty string other than the placeholder `"null"`; anything else
/// means no id was obtained and is fatal.
pub fn resolve_acl_id(response: Option<String>) -> (r: Result<String, ProvisionError>)
    ensures
        (match response {
            None => r == Err::<String, ProvisionError>(ProvisionError::NoAclId),
            Some(id) => {
                if id@ == "null"@ || id@.len() == 0 {
                    r == Err::<String, ProvisionError>(ProvisionError::NoAclId)
                } else {
                    r == Ok::<String, ProvisionError>(id)
                }
            },
        }),
{
    match response {
        None => Err(ProvisionError::NoAclId),
        Some(id) => {
            let sentinel = String::from_str("null");
            if id == sentinel || id.as_str().is_empty() {
                Err(ProvisionError::NoAclId)
            } else {
                Ok(id)
            }
        },
    }
}

/// Law: a listing with exactly one active entry resolves to that entry's
/// number (provided the number is positive, as every real version number
/// is; a non-positive one is rejected as "no active version").
pub proof fn lemma_single_active_resolves(vs: Seq<VersionInfo>, i: int)
    requires
        0 <= i < vs.len(),
        vs[i].active,
        vs[i].number > 0,
        forall|j: int| 0 <= j < vs.len() && j != i ==> !vs[j].active,
    ensures
        last_active_number(vs) == vs[i].number as int,
    decreases vs.len(),
{
    if i == vs.len() - 1 {
        assert(vs.last() == vs[i]);
    } else {
        assert(!vs.last().active);
        lemma_single_active_resolves(vs.drop_last(), i);
    }
}

/// Law: a listing with no active entry resolves to the fatal sentinel.
pub proof fn lemma_no_active_is_fatal(vs: Seq<VersionInfo>)
    requires
        forall|j: int| 0 <= j < vs.len() ==> !vs[j].active,
    ensures
        last_active_number(vs) == 0,
    decreases vs.len(),
{
    if vs.len() > 0 {
        lemma_no_active_is_fatal(vs.drop_last());
    }
}

/// Law: when several entries are marked active, the last one wins.
pub proof fn lemma_last_active_wins(vs: Seq<VersionInfo>, i: int)
    requires
        0 <= i < vs.len(),
        vs[i].active,
        forall|j: int| i < j < vs.len() ==> !vs[j].active,
    ensures
        last_active_number(vs) == vs[i].number as int,
    decreases vs.len(),
{
    if i == vs.len() - 1 {
        assert(vs.last() == vs[i]);
    } else {
        assert(!vs.last().active);
        lemma_last_active_wins(vs.drop_last(), i);
    }
}

} // verus!
