//! Rows of the permission rule table.
use vstd::prelude::*;

use crate::domain::config::perm_rule::parse_perm_action;
use crate::domain::config::{PermAction, PermissionRule};
use crate::domain::DomainError;
use crate::infra::db::{opt_stored, stored, opt_time_reads, parse_time, parse_time_opt, times_read};
use crate::text::{chars_of, extend_str, string_of};

verus! {

/// A permission rule row.
#[derive(Debug)]
pub struct PermRuleDO {
    /// Id.
    pub id: i64,
    /// Project scope.
    pub project_id: Option<i64>,
    /// Session scope.
    pub session_id: Option<i64>,
    /// Tool name.
    pub tool: String,
    /// Glob pattern.
    pub pattern: String,
    /// Action text (`allow` / `ask` / `deny`).
    pub action: String,
    /// Match order.
    pub sort: i64,
    /// Plugin the rule came with.
    pub plugin_origin: Option<String>,
    /// Created by.
    pub created_by: String,
    /// Updated by.
    pub updated_by: String,
    /// Creation time.
    pub created_at: String,
    /// Update time.
    pub updated_at: String,
    /// Soft-deletion time.
    pub deleted_at: Option<String>,
}

impl PermRuleDO {
    /// The rule a row holds, given its parsed action and times.
    pub fn with_times(
        self,
        action: PermAction,
        created_at: chrono::NaiveDateTime,
        updated_at: chrono::NaiveDateTime,
        deleted_at: Option<chrono::NaiveDateTime>,
    ) -> (p: PermissionRule)
        ensures
            p == (PermissionRule {
                id: self.id,
                project_id: self.project_id,
                session_id: self.session_id,
                tool: self.tool,
                pattern: self.pattern,
                action,
                sort: self.sort,
                plugin_origin: self.plugin_origin,
                created_at,
                updated_at,
                deleted_at,
            }),
    {
        PermissionRule {
            id: self.id,
            project_id: self.project_id,
            session_id: self.session_id,
            tool: self.tool,
            pattern: self.pattern,
            action,
            sort: self.sort,
            plugin_origin: self.plugin_origin,
            created_at,
            updated_at,
            deleted_at,
        }
    }


    /// The rule a row holds. An unknown action fails first, with the
    /// validation message; then a time that does not read fails.
    pub fn into_domain(self) -> (r: Result<PermissionRule, String>)
        ensures
            parse_perm_action(self.action@) is None ==> (r matches Err(m)
                && m@ == "校验失败："@ + "未知权限动作："@ + self.action@),
            parse_perm_action(self.action@) is Some ==> (r is Ok <==> (times_read(self.created_at@, self.updated_at@)
                && opt_time_reads(self.deleted_at))),
            r matches Ok(p) ==> {
                &&& Some(p.created_at) == stored(self.created_at@)
                &&& Some(p.updated_at) == stored(self.updated_at@)
                &&& p.deleted_at == opt_stored(self.deleted_at)
                &&& Some(p.action) == parse_perm_action(self.action@)
                &&& p.id == self.id
                &&& p.project_id == self.project_id
                &&& p.session_id == self.session_id
                &&& p.tool == self.tool
                &&& p.pattern == self.pattern
                &&& p.sort == self.sort
                &&& p.plugin_origin == self.plugin_origin
                &&& (p.deleted_at is Some <==> self.deleted_at is Some)
            },
    {
        let action = match PermAction::parse(self.action.as_str()) {
            Some(a) => a,
            None => {
                let mut m = chars_of("未知权限动作：");
                extend_str(&mut m, self.action.as_str());
                let e = DomainError::Validation(string_of(&m));
                return Err(e.message());
            },
        };
        let created_at = match parse_time(self.created_at.as_str()) {
            Ok(t) => t,
            Err(e) => return Err(e),
        };
        let updated_at = match parse_time(self.updated_at.as_str()) {
            Ok(t) => t,
            Err(e) => return Err(e),
        };
        let deleted_at = match parse_time_opt(&self.deleted_at) {
            Ok(t) => t,
            Err(e) => return Err(e),
        };
        Ok(self.with_times(action, created_at, updated_at, deleted_at))
    }
}

} // verus!
