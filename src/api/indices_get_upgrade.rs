//! Upgrade status of indices: URL builders, each assembling its URL in a buffer
//! of exactly the right size.
use vstd::prelude::*;

use crate::buffer::string_with_capacity;
use crate::urlgen::byte_len;

verus! {

/// `{base}/_upgrade`
pub fn get(base: &str) -> (r: String)
    requires
        byte_len(base@) + 9 <= usize::MAX,
    ensures
        r@ == base@ + "/_upgrade"@,
{
    let mut url_fmtd = string_with_capacity(base.len() + 9);
    url_fmtd.append(base);
    url_fmtd.append("/_upgrade");
    url_fmtd
}

/// `{base}/{index}/_upgrade`
pub fn get_index(base: &str, index: &str) -> (r: String)
    requires
        byte_len(base@) + byte_len(index@) + 10 <= usize::MAX,
    ensures
        r@ == base@ + "/"@ + index@ + "/_upgrade"@,
{
    let mut url_fmtd = string_with_capacity(base.len() + 1 + index.len() + 9);
    url_fmtd.append(base);
    url_fmtd.append("/");
    url_fmtd.append(index);
    url_fmtd.append("/_upgrade");
    url_fmtd
}

} // verus!
