//! URL builders of the snapshot endpoints.

pub mod delete;
