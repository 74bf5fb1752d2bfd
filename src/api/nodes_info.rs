//! Information about cluster nodes: URL builders, each assembling its URL in a buffer
//! of exactly the right size.
use vstd::prelude::*;

use crate::buffer::string_with_capacity;
use crate::urlgen::byte_len;

verus! {

/// `{base}/_nodes/{node_id}{query}`
pub fn get_node_id(base: &str, node_id: &str, url_qry: &str) -> (r: String)
    requires
        byte_len(base@) + byte_len(node_id@) + byte_len(url_qry@) + 8 <= usize::MAX,
    ensures
        r@ == base@ + "/_nodes/"@ + node_id@ + url_qry@,
{
    let mut url_fmtd = string_with_capacity(base.len() + 8 + node_id.len() + url_qry.len());
    url_fmtd.append(base);
    url_fmtd.append("/_nodes/");
    url_fmtd.append(node_id);
    url_fmtd.append(url_qry);
    url_fmtd
}

/// `{base}/_nodes/{node_id}/{metric}{query}`
pub fn get_node_id_metric(base: &str, node_id: &str, metric: &str, url_qry: &str) -> (r: String)
    requires
        byte_len(base@) + byte_len(node_id@) + byte_len(metric@) + byte_len(url_qry@)
            + 9 <= usize::MAX,
    ensures
        r@ == base@ + "/_nodes/"@ + node_id@ + "/"@ + metric@ + url_qry@,
{
    let mut url_fmtd = string_with_capacity(
        base.len() + 8 + node_id.len() + 1 + metric.len() + url_qry.len(),
    );
    url_fmtd.append(base);
    url_fmtd.append("/_nodes/");
    url_fmtd.append(node_id);
    url_fmtd.append("/");
    url_fmtd.append(metric);
    url_fmtd.append(url_qry);
    url_fmtd
}

/// `{base}/_nodes/{metric}{query}`
pub fn get_metric(base: &str, metric: &str, url_qry: &str) -> (r: String)
    requires
        byte_len(base@) + byte_len(metric@) + byte_len(url_qry@) + 8 <= usize::MAX,
    ensures
        r@ == base@ + "/_nodes/"@ + metric@ + url_qry@,
{
    let mut url_fmtd = string_with_capacity(base.len() + 8 + metric.len() + url_qry.len());
    url_fmtd.append(base);
    url_fmtd.append("/_nodes/");
    url_fmtd.append(metric);
    url_fmtd.append(url_qry);
    url_fmtd
}

/// `{base}/_nodes{query}`
pub fn get(base: &str, url_qry: &str) -> (r: String)
    requires
        byte_len(base@) + byte_len(url_qry@) + 7 <= usize::MAX,
    ensures
        r@ == base@ + "/_nodes"@ + url_qry@,
{
    let mut url_fmtd = string_with_capacity(base.len() + 7 + url_qry.len());
    url_fmtd.append(base);
    url_fmtd.append("/_nodes");
    url_fmtd.append(url_qry);
    url_fmtd
}

} // verus!
