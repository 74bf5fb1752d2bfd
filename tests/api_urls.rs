use elastic_codegen::api::{
    bulk, cat_indices, cat_nodeattrs, delete_template, explain, indices_delete_warmer,
    indices_get_upgrade, indices_put_warmer, mtermvectors, nodes_info, nodes_stats,
    snapshot_create, snapshot_delete_repository, snapshot_restore,
};
use elastic_codegen::cluster::put_settings;
use elastic_codegen::snapshot::delete;

#[test]
fn bulk_urls() {
    assert_eq!(bulk::post_index_type("http://h", "i", "t", "?refresh=true"), "http://h/i/t/_bulk?refresh=true");
    assert_eq!(bulk::put("http://h", ""), "http://h/_bulk");
    assert_eq!(bulk::put_index("http://h", "i", "?x"), "http://h/i/_bulk?x");
    assert_eq!(bulk::post_index("b", "i", ""), "b/i/_bulk");
}

#[test]
fn cat_urls() {
    assert_eq!(cat_indices::get("b", "?v"), "b/_cat/indices?v");
    assert_eq!(cat_indices::get_index("b", "logs", ""), "b/_cat/indices/logs");
    assert_eq!(cat_nodeattrs::get("b"), "b/_cat/nodeattrs");
}

#[test]
fn document_urls() {
    assert_eq!(delete_template::delete_id("b", "t1", ""), "b/_search/template/t1");
    assert_eq!(explain::get_index_type_id("b", "i", "t", "7", "?q=x"), "b/i/t/7/_explain?q=x");
    assert_eq!(mtermvectors::get_index_type("b", "i", "t", ""), "b/i/t/_mtermvectors");
    assert_eq!(mtermvectors::post("b", "?p"), "b/_mtermvectors?p");
}

#[test]
fn index_urls() {
    assert_eq!(indices_delete_warmer::delete_index_name("b", "i", "w", ""), "b/i/_warmers/w");
    assert_eq!(indices_get_upgrade::get("b"), "b/_upgrade");
    assert_eq!(indices_get_upgrade::get_index("b", "i"), "b/i/_upgrade");
    assert_eq!(indices_put_warmer::put_index_type_name("b", "i", "t", "w"), "b/i/t/_warmers/w");
}

#[test]
fn node_urls() {
    assert_eq!(nodes_info::get_node_id_metric("b", "n1", "jvm", ""), "b/_nodes/n1/jvm");
    assert_eq!(nodes_stats::get("b"), "b/_nodes/stats");
    assert_eq!(
        nodes_stats::get_node_id_metric_index_metric("b", "n1", "indices", "docs"),
        "b/_nodes/n1/stats/indices/docs"
    );
}

#[test]
fn snapshot_and_cluster_urls() {
    assert_eq!(snapshot_create::put_repository_snapshot("b", "r", "s", "?wait"), "b/_snapshot/r/s?wait");
    assert_eq!(snapshot_delete_repository::delete_repository("b", "r", ""), "b/_snapshot/r");
    assert_eq!(snapshot_restore::post_repository_snapshot("b", "r", "s"), "b/_snapshot/r/s/_restore");
    assert_eq!(delete::delete_repository_snapshot("b", "r", "s"), "b/_snapshot/r/s");
    assert_eq!(put_settings::put("b"), "b/_cluster/settings");
}
