//! Cluster-wide settings: URL builders, each assembling its URL in a buffer
//! of exactly the right size.
use vstd::prelude::*;

use crate::buffer::string_with_capacity;
use crate::urlgen::byte_len;

verus! {

/// `{base}/_cluster/settings`
pub fn put(base: &str) -> (r: String)
    requires
        byte_len(base@) + 18 <= usize::MAX,
    ensures
        r@ == base@ + "/_cluster/settings"@,
{
    let mut url_fmtd = string_with_capacity(base.len() + 18);
    url_fmtd.append(base);
    url_fmtd.append("/_cluster/settings");
    url_fmtd
}

} // verus!
