//! URL builders of the index endpoints, one function per verb and path
//! shape, each assembling its URL in a buffer of exactly the right size.

pub mod forcemerge;
pub mod put_warmer;
pub mod put_warmers;
