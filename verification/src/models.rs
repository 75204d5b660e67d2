//! Data model of the service: repository records, users, and the plain
//! request/response shapes of the HTTP layer.

use vstd::prelude::*;

verus! {

/// Persisted state of one mirrored repository.
///
/// `status` moves from `Pending` (record just created by a clone) to
/// `Synced` or `Error` on every sync attempt, and never back to `Pending`.
#[derive(Debug, Clone, Copy, PartialEq, Eq, Structural)]
pub enum RepoStatus {
    Pending,
    Synced,
    Error,
}

/// One registered repository.  `url` is the remote address as supplied by
/// the operator; `name` is the canonical identifier derived from it (see
/// `repo_name`); `local_path` is the clone's directory.  Timestamps are
/// seconds since the Unix epoch.
pub struct RepoRecord {
    pub id: i64,
    pub url: String,
    pub name: String,
    pub local_path: String,
    pub last_synced: Option<i64>,
    pub created_at: i64,
    pub status: RepoStatus,
}

impl Clone for RepoRecord {
    fn clone(&self) -> (r: Self)
        ensures
            r == *self,
    {
        RepoRecord {
            id: self.id,
            url: self.url.clone(),
            name: self.name.clone(),
            local_path: self.local_path.clone(),
            last_synced: self.last_synced,
            created_at: self.created_at,
            status: self.status,
        }
    }
}

/// One operator account; `password_hash` is a bcrypt hash.
pub struct User {
    pub id: i64,
    pub username: String,
    pub password_hash: String,
    pub created_at: i64,
}

pub struct LoginRequest {
    pub username: String,
    pub password: String,
}

pub struct AddRepositoryRequest {
    pub url: String,
}

pub struct ApiResponse<T> {
    pub success: bool,
    pub data: Option<T>,
    pub message: Option<String>,
}

pub struct PaginationQuery {
    pub page: Option<u32>,
    pub limit: Option<u32>,
}

pub struct PaginatedResponse<T> {
    pub items: Vec<T>,
    pub total: i64,
    pub page: u32,
    pub limit: u32,
    pub total_pages: u32,
}

} // verus!
