//! Removal of snapshot repositories: URL builders, each assembling its URL in a buffer
//! of exactly the right size.
use vstd::prelude::*;

use crate::buffer::string_with_capacity;
use crate::urlgen::byte_len;

verus! {

/// `{base}/_snapshot/{repository}{query}`
pub fn delete_repository(base: &str, repository: &str, url_qry: &str) -> (r: String)
    requires
        byte_len(base@) + byte_len(repository@) + byte_len(url_qry@) + 11 <= usize::MAX,
    ensures
        r@ == base@ + "/_snapshot/"@ + repository@ + url_qry@,
{
    let mut url_fmtd = string_with_capacity(base.len() + 11 + repository.len() + url_qry.len());
    url_fmtd.append(base);
    url_fmtd.append("/_snapshot/");
    url_fmtd.append(repository);
    url_fmtd.append(url_qry);
    url_fmtd
}

} // verus!
