//! Creation of snapshots: URL builders, each assembling its URL in a buffer
//! of exactly the right size.
use vstd::prelude::*;

use crate::buffer::string_with_capacity;
use crate::urlgen::byte_len;

verus! {

/// `{base}/_snapshot/{repository}/{snapshot}{query}`
pub fn put_repository_snapshot(
    base: &str,
    repository: &str,
    snapshot: &str,
    url_qry: &str,
) -> (r: String)
    requires
        byte_len(base@) + byte_len(repository@) + byte_len(snapshot@)
            + byte_len(url_qry@) + 12 <= usize::MAX,
    ensures
        r@ == base@ + "/_snapshot/"@ + repository@ + "/"@ + snapshot@ + url_qry@,
{
    let mut url_fmtd = string_with_capacity(
        base.len() + 11 + repository.len() + 1 + snapshot.len() + url_qry.len(),
    );
    url_fmtd.append(base);
    url_fmtd.append("/_snapshot/");
    url_fmtd.append(repository);
    url_fmtd.append("/");
    url_fmtd.append(snapshot);
    url_fmtd.append(url_qry);
    url_fmtd
}

/// `{base}/_snapshot/{repository}/{snapshot}{query}`
pub fn post_repository_snapshot(
    base: &str,
    repository: &str,
    snapshot: &str,
    url_qry: &str,
) -> (r: String)
    requires
        byte_len(base@) + byte_len(repository@) + byte_len(snapshot@)
            + byte_len(url_qry@) + 12 <= usize::MAX,
    ensures
        r@ == base@ + "/_snapshot/"@ + repository@ + "/"@ + snapshot@ + url_qry@,
{
    let mut url_fmtd = string_with_capacity(
        base.len() + 11 + repository.len() + 1 + snapshot.len() + url_qry.len(),
    );
    url_fmtd.append(base);
    url_fmtd.append("/_snapshot/");
    url_fmtd.append(repository);
    url_fmtd.append("/");
    url_fmtd.append(snapshot);
    url_fmtd.append(url_qry);
    url_fmtd
}

} // verus!
