//! Rows of the project table.
use vstd::prelude::*;

use crate::domain::project::Project;
use crate::infra::db::{opt_stored, stored, opt_time_reads, parse_time, parse_time_opt, times_read};

verus! {

/// A project row.
#[derive(Debug)]
pub struct ProjectDO {
    /// Id.
    pub id: i64,
    /// Name.
    pub name: String,
    /// Canonical absolute path.
    pub path: String,
    /// Last opening time.
    pub last_opened_at: Option<String>,
    /// Created by.
    pub created_by: String,
    /// Updated by.
    pub updated_by: String,
    /// Creation time.
    pub created_at: String,
    /// Update time.
    pub updated_at: String,
    /// Soft-deletion time.
    pub deleted_at: Option<String>,
}

impl ProjectDO {
    /// The project a row holds, given its parsed times.
    pub fn with_times(
        self,
        last_opened_at: Option<chrono::NaiveDateTime>,
        created_at: chrono::NaiveDateTime,
        updated_at: chrono::NaiveDateTime,
    ) -> (p: Project)
        ensures
            p == (Project { id: self.id, name: self.name, path: self.path, last_opened_at, created_at, updated_at }),
    {
        Project { id: self.id, name: self.name, path: self.path, last_opened_at, created_at, updated_at }
    }


    /// The project a row holds; fails when a time does not read.
    pub fn into_domain(self) -> (r: Result<Project, String>)
        ensures
            r is Ok <==> (opt_time_reads(self.last_opened_at) && times_read(self.created_at@, self.updated_at@)),
            r matches Ok(p) ==> {
                &&& p.last_opened_at == opt_stored(self.last_opened_at)
                &&& Some(p.created_at) == stored(self.created_at@)
                &&& Some(p.updated_at) == stored(self.updated_at@)
                &&& p.id == self.id
                &&& p.name == self.name
                &&& p.path == self.path
                &&& (p.last_opened_at is Some <==> self.last_opened_at is Some)
            },
    {
        let last_opened_at = match parse_time_opt(&self.last_opened_at) {
            Ok(t) => t,
            Err(e) => return Err(e),
        };
        let created_at = match parse_time(self.created_at.as_str()) {
            Ok(t) => t,
            Err(e) => return Err(e),
        };
        let updated_at = match parse_time(self.updated_at.as_str()) {
            Ok(t) => t,
            Err(e) => return Err(e),
        };
        Ok(self.with_times(last_opened_at, created_at, updated_at))
    }
}

} // verus!
