//! Statistics of cluster nodes: URL builders, each assembling its URL in a buffer
//! of exactly the right size.
use vstd::prelude::*;

use crate::buffer::string_with_capacity;
use crate::urlgen::byte_len;

verus! {

/// `{base}/_nodes/stats`
pub fn get(base: &str) -> (r: String)
    requires
        byte_len(base@) + 13 <= usize::MAX,
    ensures
        r@ == base@ + "/_nodes/stats"@,
{
    let mut url_fmtd = string_with_capacity(base.len() + 13);
    url_fmtd.append(base);
    url_fmtd.append("/_nodes/stats");
    url_fmtd
}

/// `{base}/_nodes/{node_id}/stats`
pub fn get_node_id(base: &str, node_id: &str) -> (r: String)
    requires
        byte_len(base@) + byte_len(node_id@) + 14 <= usize::MAX,
    ensures
        r@ == base@ + "/_nodes/"@ + node_id@ + "/stats"@,
{
    let mut url_fmtd = string_with_capacity(base.len() + 8 + node_id.len() + 6);
    url_fmtd.append(base);
    url_fmtd.append("/_nodes/");
    url_fmtd.append(node_id);
    url_fmtd.append("/stats");
    url_fmtd
}

/// `{base}/_nodes/{node_id}/stats/{metric}`
pub fn get_node_id_metric(base: &str, node_id: &str, metric: &str) -> (r: String)
    requires
        byte_len(base@) + byte_len(node_id@) + byte_len(metric@) + 15 <= usize::MAX,
    ensures
        r@ == base@ + "/_nodes/"@ + node_id@ + "/stats/"@ + metric@,
{
    let mut url_fmtd = string_with_capacity(base.len() + 8 + node_id.len() + 7 + metric.len());
    url_fmtd.append(base);
    url_fmtd.append("/_nodes/");
    url_fmtd.append(node_id);
    url_fmtd.append("/stats/");
    url_fmtd.append(metric);
    url_fmtd
}

/// `{base}/_nodes/stats/{metric}`
pub fn get_metric(base: &str, metric: &str) -> (r: String)
    requires
        byte_len(base@) + byte_len(metric@) + 14 <= usize::MAX,
    ensures
        r@ == base@ + "/_nodes/stats/"@ + metric@,
{
    let mut url_fmtd = string_with_capacity(base.len() + 14 + metric.len());
    url_fmtd.append(base);
    url_fmtd.append("/_nodes/stats/");
    url_fmtd.append(metric);
    url_fmtd
}

/// `{base}/_nodes/stats/{metric}/{index_metric}`
pub fn get_metric_index_metric(base: &str, metric: &str, index_metric: &str) -> (r: String)
    requires
        byte_len(base@) + byte_len(metric@) + byte_len(index_metric@) + 15 <= usize::MAX,
    ensures
        r@ == base@ + "/_nodes/stats/"@ + metric@ + "/"@ + index_metric@,
{
    let mut url_fmtd = string_with_capacity(
        base.len() + 14 + metric.len() + 1 + index_metric.len(),
    );
    url_fmtd.append(base);
    url_fmtd.append("/_nodes/stats/");
    url_fmtd.append(metric);
    url_fmtd.append("/");
    url_fmtd.append(index_metric);
    url_fmtd
}

/// `{base}/_nodes/{node_id}/stats/{metric}/{index_metric}`
pub fn get_node_id_metric_index_metric(
    base: &str,
    node_id: &str,
    metric: &str,
    index_metric: &str,
) -> (r: String)
    requires
        byte_len(base@) + byte_len(node_id@) + byte_len(metric@)
            + byte_len(index_metric@) + 16 <= usize::MAX,
    ensures
        r@ == base@ + "/_nodes/"@ + node_id@ + "/stats/"@ + metric@ + "/"@ + index_metric@,
{
    let mut url_fmtd = string_with_capacity(
        base.len() + 8 + node_id.len() + 7 + metric.len() + 1 + index_metric.len(),
    );
    url_fmtd.append(base);
    url_fmtd.append("/_nodes/");
    url_fmtd.append(node_id);
    url_fmtd.append("/stats/");
    url_fmtd.append(metric);
    url_fmtd.append("/");
    url_fmtd.append(index_metric);
    url_fmtd
}

} // verus!
