//! Keeps the users and roles of a cluster's authentication document in line
//! with the groups of an identity source, without touching what others wrote
//! into the document.
//!
//! The library holds what a run decides: how mapping rules and role ARNs are
//! read, how the members of several groups become one record per user, which
//! cluster groups a user is bound to, how fresh records are merged into the
//! document, and how records are laid out in it. Talking to the identity
//! source and to the cluster is left to the caller.

pub mod aws;
pub mod config;
pub mod errors;
pub mod identity;
pub mod keyed;
pub mod kubernetes;
pub mod mapping;
pub mod sync;
pub mod text;
