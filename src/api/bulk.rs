//! Bulk indexing: URL builders, each assembling its URL in a buffer
//! of exactly the right size.
use vstd::prelude::*;

use crate::buffer::string_with_capacity;
use crate::urlgen::byte_len;

verus! {

/// `{base}/{index}/{type}/_bulk{query}`
pub fn post_index_type(base: &str, index: &str, _type: &str, url_qry: &str) -> (r: String)
    requires
        byte_len(base@) + byte_len(index@) + byte_len(_type@) + byte_len(url_qry@)
            + 8 <= usize::MAX,
    ensures
        r@ == base@ + "/"@ + index@ + "/"@ + _type@ + "/_bulk"@ + url_qry@,
{
    let mut url_fmtd = string_with_capacity(
        base.len() + 1 + index.len() + 1 + _type.len() + 6 + url_qry.len(),
    );
    url_fmtd.append(base);
    url_fmtd.append("/");
    url_fmtd.append(index);
    url_fmtd.append("/");
    url_fmtd.append(_type);
    url_fmtd.append("/_bulk");
    url_fmtd.append(url_qry);
    url_fmtd
}

/// `{base}/_bulk{query}`
pub fn put(base: &str, url_qry: &str) -> (r: String)
    requires
        byte_len(base@) + byte_len(url_qry@) + 6 <= usize::MAX,
    ensures
        r@ == base@ + "/_bulk"@ + url_qry@,
{
    let mut url_fmtd = string_with_capacity(base.len() + 6 + url_qry.len());
    url_fmtd.append(base);
    url_fmtd.append("/_bulk");
    url_fmtd.append(url_qry);
    url_fmtd
}

/// `{base}/{index}/_bulk{query}`
pub fn put_index(base: &str, index: &str, url_qry: &str) -> (r: String)
    requires
        byte_len(base@) + byte_len(index@) + byte_len(url_qry@) + 7 <= usize::MAX,
    ensures
        r@ == base@ + "/"@ + index@ + "/_bulk"@ + url_qry@,
{
    let mut url_fmtd = string_with_capacity(base.len() + 1 + index.len() + 6 + url_qry.len());
    url_fmtd.append(base);
    url_fmtd.append("/");
    url_fmtd.append(index);
    url_fmtd.append("/_bulk");
    url_fmtd.append(url_qry);
    url_fmtd
}

/// `{base}/{index}/{type}/_bulk{query}`
pub fn put_index_type(base: &str, index: &str, _type: &str, url_qry: &str) -> (r: String)
    requires
        byte_len(base@) + byte_len(index@) + byte_len(_type@) + byte_len(url_qry@)
            + 8 <= usize::MAX,
    ensures
        r@ == base@ + "/"@ + index@ + "/"@ + _type@ + "/_bulk"@ + url_qry@,
{
    let mut url_fmtd = string_with_capacity(
        base.len() + 1 + index.len() + 1 + _type.len() + 6 + url_qry.len(),
    );
    url_fmtd.append(base);
    url_fmtd.append("/");
    url_fmtd.append(index);
    url_fmtd.append("/");
    url_fmtd.append(_type);
    url_fmtd.append("/_bulk");
    url_fmtd.append(url_qry);
    url_fmtd
}

/// `{base}/_bulk{query}`
pub fn post(base: &str, url_qry: &str) -> (r: String)
    requires
        byte_len(base@) + byte_len(url_qry@) + 6 <= usize::MAX,
    ensures
        r@ == base@ + "/_bulk"@ + url_qry@,
{
    let mut url_fmtd = string_with_capacity(base.len() + 6 + url_qry.len());
    url_fmtd.append(base);
    url_fmtd.append("/_bulk");
    url_fmtd.append(url_qry);
    url_fmtd
}

/// `{base}/{index}/_bulk{query}`
pub fn post_index(base: &str, index: &str, url_qry: &str) -> (r: String)
    requires
        byte_len(base@) + byte_len(index@) + byte_len(url_qry@) + 7 <= usize::MAX,
    ensures
        r@ == base@ + "/"@ + index@ + "/_bulk"@ + url_qry@,
{
    let mut url_fmtd = string_with_capacity(base.len() + 1 + index.len() + 6 + url_qry.len());
    url_fmtd.append(base);
    url_fmtd.append("/");
    url_fmtd.append(index);
    url_fmtd.append("/_bulk");
    url_fmtd.append(url_qry);
    url_fmtd
}

} // verus!
