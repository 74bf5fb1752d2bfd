//! Score explanations of documents: URL builders, each assembling its URL in a buffer
//! of exactly the right size.
use vstd::prelude::*;

use crate::buffer::string_with_capacity;
use crate::urlgen::byte_len;

verus! {

/// `{base}/{index}/{type}/{id}/_explain{query}`
pub fn get_index_type_id(
    base: &str,
    index: &str,
    _type: &str,
    id: &str,
    url_qry: &str,
) -> (r: String)
    requires
        byte_len(base@) + byte_len(index@) + byte_len(_type@) + byte_len(id@)
            + byte_len(url_qry@) + 12 <= usize::MAX,
    ensures
        r@ == base@ + "/"@ + index@ + "/"@ + _type@ + "/"@ + id@ + "/_explain"@ + url_qry@,
{
    let mut url_fmtd = string_with_capacity(
        base.len() + 1 + index.len() + 1 + _type.len() + 1 + id.len() + 9 + url_qry.len(),
    );
    url_fmtd.append(base);
    url_fmtd.append("/");
    url_fmtd.append(index);
    url_fmtd.append("/");
    url_fmtd.append(_type);
    url_fmtd.append("/");
    url_fmtd.append(id);
    url_fmtd.append("/_explain");
    url_fmtd.append(url_qry);
    url_fmtd
}

/// `{base}/{index}/{type}/{id}/_explain{query}`
pub fn post_index_type_id(
    base: &str,
    index: &str,
    _type: &str,
    id: &str,
    url_qry: &str,
) -> (r: String)
    requires
        byte_len(base@) + byte_len(index@) + byte_len(_type@) + byte_len(id@)
            + byte_len(url_qry@) + 12 <= usize::MAX,
    ensures
        r@ == base@ + "/"@ + index@ + "/"@ + _type@ + "/"@ + id@ + "/_explain"@ + url_qry@,
{
    let mut url_fmtd = string_with_capacity(
        base.len() + 1 + index.len() + 1 + _type.len() + 1 + id.len() + 9 + url_qry.len(),
    );
    url_fmtd.append(base);
    url_fmtd.append("/");
    url_fmtd.append(index);
    url_fmtd.append("/");
    url_fmtd.append(_type);
    url_fmtd.append("/");
    url_fmtd.append(id);
    url_fmtd.append("/_explain");
    url_fmtd.append(url_qry);
    url_fmtd
}

} // verus!
