//! URLs of the force-merge endpoint.
use vstd::prelude::*;

use crate::buffer::string_with_capacity;
use crate::urlgen::byte_len;

verus! {

/// `{base}/_forcemerge`
pub fn post(base: String) -> (r: String)
    requires
        byte_len(base@) + 12 <= usize::MAX,
    ensures
        r@ == base@ + "/_forcemerge"@,
{
    let mut url_fmtd = string_with_capacity(base.as_str().len() + 12);
    url_fmtd.append(base.as_str());
    url_fmtd.append("/_forcemerge");
    url_fmtd
}

/// `{base}/{index}/_forcemerge`
pub fn post_index(base: String, index: String) -> (r: String)
    requires
        byte_len(base@) + byte_len(index@) + 13 <= usize::MAX,
    ensures
        r@ == base@ + "/"@ + index@ + "/_forcemerge"@,
{
    let mut url_fmtd = string_with_capacity(base.as_str().len() + 1 + index.as_str().len() + 12);
    url_fmtd.append(base.as_str());
    url_fmtd.append("/");
    url_fmtd.append(index.as_str());
    url_fmtd.append("/_forcemerge");
    url_fmtd
}

} // verus!
