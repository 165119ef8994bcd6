#![verifier::loop_isolation(false)]
//! A meta package manager core: declarative package definitions, a
//! name-keyed dependency resolver, a multi-strategy installation planner
//! with post-install configuration, and a TTL-governed metadata cache.

pub mod cache;
pub mod cli;
pub mod config;
pub mod definition;
pub mod error;
pub mod groups;
pub mod installer;
pub mod package;
pub mod repository;
pub mod strutil;

use vstd::prelude::*;

verus! {

/// The application context: the loaded configuration and the repository
/// manager built over it.
pub struct App {
    pub config: config::Config,
    pub repository: repository::Manager,
}

} // verus!
