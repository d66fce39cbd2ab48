//! Merges the repositories found on disk with the repositories an account
//! holds on a hosting service, and relates local branches to remote ones.

pub mod commands;
pub mod github;
pub mod project;
