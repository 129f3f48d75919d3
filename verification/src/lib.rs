//! Core of a tiny configuration-and-data service: a validated store address,
//! a simulated unreliable data dependency, and a total classifier that maps
//! every failure to an externally safe response without leaking internal
//! detail.

pub mod classify;
pub mod database;
pub mod handlers;
pub mod json;
pub mod settings;
