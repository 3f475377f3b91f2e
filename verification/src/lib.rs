//! One-shot provisioning of an access-control list (ACL) on a CDN service.
//!
//! The library holds the decisions and the string work of the pipeline:
//! resolving the active configuration version from a version listing,
//! validating the cloned draft version and the created ACL id, parsing
//! IP/CIDR entries, deriving network address and netmask, building the
//! JSON bodies and request paths of the API calls, and collecting the
//! entries whose upload failed.  The HTTP calls and the file reading
//! around it are ordinary unverified glue.

pub mod api;
pub mod cidr;
pub mod entry;
pub mod errors;
pub mod input;
pub mod ipv6;
pub mod report;
pub mod text;
pub mod versions;
