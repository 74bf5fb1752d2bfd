//! Index listing in the cat format: URL builders, each assembling its URL in a buffer
//! of exactly the right size.
use vstd::prelude::*;

use crate::buffer::string_with_capacity;
use crate::urlgen::byte_len;

verus! {

/// `{base}/_cat/indices{query}`
pub fn get(base: &str, url_qry: &str) -> (r: String)
    requires
        byte_len(base@) + byte_len(url_qry@) + 13 <= usize::MAX,
    ensures
        r@ == base@ + "/_cat/indices"@ + url_qry@,
{
    let mut url_fmtd = string_with_capacity(base.len() + 13 + url_qry.len());
    url_fmtd.append(base);
    url_fmtd.append("/_cat/indices");
    url_fmtd.append(url_qry);
    url_fmtd
}

/// `{base}/_cat/indices/{index}{query}`
pub fn get_index(base: &str, index: &str, url_qry: &str) -> (r: String)
    requires
        byte_len(base@) + byte_len(index@) + byte_len(url_qry@) + 14 <= usize::MAX,
    ensures
        r@ == base@ + "/_cat/indices/"@ + index@ + url_qry@,
{
    let mut url_fmtd = string_with_capacity(base.len() + 14 + index.len() + url_qry.len());
    url_fmtd.append(base);
    url_fmtd.append("/_cat/indices/");
    url_fmtd.append(index);
    url_fmtd.append(url_qry);
    url_fmtd
}

} // verus!
