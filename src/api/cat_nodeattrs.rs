//! Node attributes in the cat format: URL builders, each assembling its URL in a buffer
//! of exactly the right size.
use vstd::prelude::*;

use crate::buffer::string_with_capacity;
use crate::urlgen::byte_len;

verus! {

/// `{base}/_cat/nodeattrs`
pub fn get(base: &str) -> (r: String)
    requires
        byte_len(base@) + 15 <= usize::MAX,
    ensures
        r@ == base@ + "/_cat/nodeattrs"@,
{
    let mut url_fmtd = string_with_capacity(base.len() + 15);
    url_fmtd.append(base);
    url_fmtd.append("/_cat/nodeattrs");
    url_fmtd
}

} // verus!
