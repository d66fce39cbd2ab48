//! What the hosting service reports, and what is decided from it.

pub mod repos;
pub mod user;
