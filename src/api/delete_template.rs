//! Removal of search templates: URL builders, each assembling its URL in a buffer
//! of exactly the right size.
use vstd::prelude::*;

use crate::buffer::string_with_capacity;
use crate::urlgen::byte_len;

verus! {

/// `{base}/_search/template/{id}{query}`
pub fn delete_id(base: &str, id: &str, url_qry: &str) -> (r: String)
    requires
        byte_len(base@) + byte_len(id@) + byte_len(url_qry@) + 18 <= usize::MAX,
    ensures
        r@ == base@ + "/_search/template/"@ + id@ + url_qry@,
{
    let mut url_fmtd = string_with_capacity(base.len() + 18 + id.len() + url_qry.len());
    url_fmtd.append(base);
    url_fmtd.append("/_search/template/");
    url_fmtd.append(id);
    url_fmtd.append(url_qry);
    url_fmtd
}

} // verus!
