//! A library for mirroring remote git repositories locally.
//!
//! The crate covers the decision logic of a repository mirroring service:
//! deriving a stable local identifier from a remote URL, deciding when a
//! local clone can safely be fast-forwarded, keeping per-repository status
//! bookkeeping, and managing bearer-token sessions.  Calls into `git2`,
//! `bcrypt` and `uuid` stand behind small trusted wrappers; everything
//! around them is verified.

pub mod models;
pub mod repo_name;
pub mod auth;
pub mod sync;
pub mod git_manager;
pub mod orchestrator;
