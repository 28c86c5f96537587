//! Checkpoints: a file's content before a change, kept as a git blob.
use vstd::prelude::*;
use chrono::NaiveDateTime;

verus! {

/// A checkpoint.
#[derive(Debug, Clone)]
pub struct Checkpoint {
    /// Primary key (filled after insert).
    pub id: i64,
    /// Session.
    pub session_id: i64,
    /// Changed file (relative to the project).
    pub file_path: String,
    /// Git blob holding the content before the change.
    pub git_ref: String,
    /// Added lines.
    pub add_lines: i64,
    /// Deleted lines.
    pub del_lines: i64,
    /// Whether it was rolled back.
    pub rolled_back: bool,
    /// Creation time.
    pub created_at: NaiveDateTime,
    /// Last update time.
    pub updated_at: NaiveDateTime,
}

impl Checkpoint {
    /// A new checkpoint (not stored yet, not rolled back).
    pub fn new(
        session_id: i64,
        file_path: String,
        git_ref: String,
        add_lines: i64,
        del_lines: i64,
        now: NaiveDateTime,
    ) -> (c: Checkpoint)
        ensures
            c == (Checkpoint {
                id: 0,
                session_id,
                file_path,
                git_ref,
                add_lines,
                del_lines,
                rolled_back: false,
                created_at: now,
                updated_at: now,
            }),
    {
        Checkpoint {
            id: 0,
            session_id,
            file_path,
            git_ref,
            add_lines,
            del_lines,
            rolled_back: false,
            created_at: now,
            updated_at: now,
        }
    }
}

/// Rolls a file back to a checkpoint (the repository holding the content
/// before the change is the implementor's).
pub trait CheckpointGateway: Send + Sync {
    /// Writes the content `git_ref` refers to back to `rel_path` under
    /// `project_root`; the error is a message.
    fn rollback(&self, project_root: &str, git_ref: &str, rel_path: &str) -> Result<(), String>;
}

} // verus!
