//! Rows of the checkpoint table.
use vstd::prelude::*;

use crate::domain::agent::Checkpoint;
use crate::infra::db::{stored, parse_time, times_read};

verus! {

/// A checkpoint row.
#[derive(Debug)]
pub struct CheckpointDO {
    /// Id.
    pub id: i64,
    /// Session id.
    pub session_id: i64,
    /// Changed file (relative to the project).
    pub file_path: String,
    /// Blob reference.
    pub git_ref: String,
    /// Lines added.
    pub add_lines: i64,
    /// Lines removed.
    pub del_lines: i64,
    /// Rolled back (non-zero).
    pub rolled_back: i64,
    /// Created by.
    pub created_by: String,
    /// Updated by.
    pub updated_by: String,
    /// Creation time.
    pub created_at: String,
    /// Update time.
    pub updated_at: String,
    /// Soft-deletion time.
    pub deleted_at: Option<String>,
}

impl CheckpointDO {
    /// The checkpoint a row holds, given its parsed times.
    pub fn with_times(self, created_at: chrono::NaiveDateTime, updated_at: chrono::NaiveDateTime) -> (c: Checkpoint)
        ensures
            c == (Checkpoint {
                id: self.id,
                session_id: self.session_id,
                file_path: self.file_path,
                git_ref: self.git_ref,
                add_lines: self.add_lines,
                del_lines: self.del_lines,
                rolled_back: self.rolled_back != 0,
                created_at,
                updated_at,
            }),
    {
        Checkpoint {
            id: self.id,
            session_id: self.session_id,
            file_path: self.file_path,
            git_ref: self.git_ref,
            add_lines: self.add_lines,
            del_lines: self.del_lines,
            rolled_back: self.rolled_back != 0,
            created_at,
            updated_at,
        }
    }


    /// The checkpoint a row holds; fails when a time does not read.
    pub fn into_domain(self) -> (r: Result<Checkpoint, String>)
        ensures
            r is Ok <==> times_read(self.created_at@, self.updated_at@),
            r matches Ok(c) ==> {
                &&& Some(c.created_at) == stored(self.created_at@)
                &&& Some(c.updated_at) == stored(self.updated_at@)
                &&& c.id == self.id
                &&& c.session_id == self.session_id
                &&& c.file_path == self.file_path
                &&& c.git_ref == self.git_ref
                &&& c.add_lines == self.add_lines
                &&& c.del_lines == self.del_lines
                &&& c.rolled_back == (self.rolled_back != 0)
            },
    {
        let created_at = match parse_time(self.created_at.as_str()) {
            Ok(t) => t,
            Err(e) => return Err(e),
        };
        let updated_at = match parse_time(self.updated_at.as_str()) {
            Ok(t) => t,
            Err(e) => return Err(e),
        };
        Ok(self.with_times(created_at, updated_at))
    }
}

} // verus!
