//! Term vectors of several documents: URL builders, each assembling its URL in a buffer
//! of exactly the right size.
use vstd::prelude::*;

use crate::buffer::string_with_capacity;
use crate::urlgen::byte_len;

verus! {

/// `{base}/{index}/_mtermvectors{query}`
pub fn post_index(base: &str, index: &str, url_qry: &str) -> (r: String)
    requires
        byte_len(base@) + byte_len(index@) + byte_len(url_qry@) + 15 <= usize::MAX,
    ensures
        r@ == base@ + "/"@ + index@ + "/_mtermvectors"@ + url_qry@,
{
    let mut url_fmtd = string_with_capacity(base.len() + 1 + index.len() + 14 + url_qry.len());
    url_fmtd.append(base);
    url_fmtd.append("/");
    url_fmtd.append(index);
    url_fmtd.append("/_mtermvectors");
    url_fmtd.append(url_qry);
    url_fmtd
}

/// `{base}/{index}/_mtermvectors{query}`
pub fn get_index(base: &str, index: &str, url_qry: &str) -> (r: String)
    requires
        byte_len(base@) + byte_len(index@) + byte_len(url_qry@) + 15 <= usize::MAX,
    ensures
        r@ == base@ + "/"@ + index@ + "/_mtermvectors"@ + url_qry@,
{
    let mut url_fmtd = string_with_capacity(base.len() + 1 + index.len() + 14 + url_qry.len());
    url_fmtd.append(base);
    url_fmtd.append("/");
    url_fmtd.append(index);
    url_fmtd.append("/_mtermvectors");
    url_fmtd.append(url_qry);
    url_fmtd
}

/// `{base}/{index}/{type}/_mtermvectors{query}`
pub fn post_index_type(base: &str, index: &str, _type: &str, url_qry: &str) -> (r: String)
    requires
        byte_len(base@) + byte_len(index@) + byte_len(_type@) + byte_len(url_qry@)
            + 16 <= usize::MAX,
    ensures
        r@ == base@ + "/"@ + index@ + "/"@ + _type@ + "/_mtermvectors"@ + url_qry@,
{
    let mut url_fmtd = string_with_capacity(
        base.len() + 1 + index.len() + 1 + _type.len() + 14 + url_qry.len(),
    );
    url_fmtd.append(base);
    url_fmtd.append("/");
    url_fmtd.append(index);
    url_fmtd.append("/");
    url_fmtd.append(_type);
    url_fmtd.append("/_mtermvectors");
    url_fmtd.append(url_qry);
    url_fmtd
}

/// `{base}/{index}/{type}/_mtermvectors{query}`
pub fn get_index_type(base: &str, index: &str, _type: &str, url_qry: &str) -> (r: String)
    requires
        byte_len(base@) + byte_len(index@) + byte_len(_type@) + byte_len(url_qry@)
            + 16 <= usize::MAX,
    ensures
        r@ == base@ + "/"@ + index@ + "/"@ + _type@ + "/_mtermvectors"@ + url_qry@,
{
    let mut url_fmtd = string_with_capacity(
        base.len() + 1 + index.len() + 1 + _type.len() + 14 + url_qry.len(),
    );
    url_fmtd.append(base);
    url_fmtd.append("/");
    url_fmtd.append(index);
    url_fmtd.append("/");
    url_fmtd.append(_type);
    url_fmtd.append("/_mtermvectors");
    url_fmtd.append(url_qry);
    url_fmtd
}

/// `{base}/_mtermvectors{query}`
pub fn post(base: &str, url_qry: &str) -> (r: String)
    requires
        byte_len(base@) + byte_len(url_qry@) + 14 <= usize::MAX,
    ensures
        r@ == base@ + "/_mtermvectors"@ + url_qry@,
{
    let mut url_fmtd = string_with_capacity(base.len() + 14 + url_qry.len());
    url_fmtd.append(base);
    url_fmtd.append("/_mtermvectors");
    url_fmtd.append(url_qry);
    url_fmtd
}

/// `{base}/_mtermvectors{query}`
pub fn get(base: &str, url_qry: &str) -> (r: String)
    requires
        byte_len(base@) + byte_len(url_qry@) + 14 <= usize::MAX,
    ensures
        r@ == base@ + "/_mtermvectors"@ + url_qry@,
{
    let mut url_fmtd = string_with_capacity(base.len() + 14 + url_qry.len());
    url_fmtd.append(base);
    url_fmtd.append("/_mtermvectors");
    url_fmtd.append(url_qry);
    url_fmtd
}

} // verus!
