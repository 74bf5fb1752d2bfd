//! URL builders of hand-maintained endpoint bindings.

pub mod bulk;
pub mod cat_indices;
pub mod cat_nodeattrs;
pub mod delete_template;
pub mod explain;
pub mod indices_delete_warmer;
pub mod indices_get_upgrade;
pub mod indices_put_warmer;
pub mod mtermvectors;
pub mod nodes_info;
pub mod nodes_stats;
pub mod snapshot_create;
pub mod snapshot_delete_repository;
pub mod snapshot_restore;
