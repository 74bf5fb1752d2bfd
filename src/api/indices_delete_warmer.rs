//! Removal of index warmers: URL builders, each assembling its URL in a buffer
//! of exactly the right size.
use vstd::prelude::*;

use crate::buffer::string_with_capacity;
use crate::urlgen::byte_len;

verus! {

/// `{base}/{index}/_warmers/{name}{query}`
pub fn delete_index_name(base: &str, index: &str, name: &str, url_qry: &str) -> (r: String)
    requires
        byte_len(base@) + byte_len(index@) + byte_len(name@) + byte_len(url_qry@)
            + 11 <= usize::MAX,
    ensures
        r@ == base@ + "/"@ + index@ + "/_warmers/"@ + name@ + url_qry@,
{
    let mut url_fmtd = string_with_capacity(
        base.len() + 1 + index.len() + 10 + name.len() + url_qry.len(),
    );
    url_fmtd.append(base);
    url_fmtd.append("/");
    url_fmtd.append(index);
    url_fmtd.append("/_warmers/");
    url_fmtd.append(name);
    url_fmtd.append(url_qry);
    url_fmtd
}

} // verus!
