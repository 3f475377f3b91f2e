use vstd::prelude::*;

verus! {

/// The shape of the input document: one field holding the ordered list of
/// IP/CIDR strings to upload.  The file is read and decoded outside the
/// library; a decode failure there is fatal and aborts the run before any
/// upload call is made.
#[derive(Debug, Clone, PartialEq)]
pub struct Root {
    pub ip_list: Vec<String>,
}

impl Root {
    pub fn new(ip_list: Vec<String>) -> (r: Self)
        ensures
            r.ip_list@ == ip_list@,
    {
        Root { ip_list }
    }
}

impl Default for Root {
    fn default() -> (r: Self)
        ensures
            r.ip_list@.len() == 0,
    {
        Root { ip_list: Vec::new() }
    }
}

} // verus!
