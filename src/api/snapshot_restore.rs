//! Restoring of snapshots: URL builders, each assembling its URL in a buffer
//! of exactly the right size.
use vstd::prelude::*;

use crate::buffer::string_with_capacity;
use crate::urlgen::byte_len;

verus! {

/// `{base}/_snapshot/{repository}/{snapshot}/_restore`
pub fn post_repository_snapshot(base: &str, repository: &str, snapshot: &str) -> (r: String)
    requires
        byte_len(base@) + byte_len(repository@) + byte_len(snapshot@) + 21 <= usize::MAX,
    ensures
        r@ == base@ + "/_snapshot/"@ + repository@ + "/"@ + snapshot@ + "/_restore"@,
{
    let mut url_fmtd = string_with_capacity(
        base.len() + 11 + repository.len() + 1 + snapshot.len() + 9,
    );
    url_fmtd.append(base);
    url_fmtd.append("/_snapshot/");
    url_fmtd.append(repository);
    url_fmtd.append("/");
    url_fmtd.append(snapshot);
    url_fmtd.append("/_restore");
    url_fmtd
}

} // verus!
