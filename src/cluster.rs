//! URL builders of the cluster endpoints.

pub mod put_settings;
