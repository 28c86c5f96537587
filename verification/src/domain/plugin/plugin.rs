//! Plugins: declarative capability packages, their manifest checks and the
//! enable / disable transitions.
use vstd::prelude::*;
use chrono::NaiveDateTime;

use crate::domain::DomainError;
use crate::text::{chars_of, concat_vec, eq_str, extend_str, is_blank, is_blank_vec, is_digit, is_lower, is_ascii_digit, is_ascii_lower, owned, string_of, str_eq};

verus! {

/// Whether a plugin is enabled.
#[derive(Debug, Clone, Copy, PartialEq, Eq, Structural)]
pub enum PluginStatus {
    /// Its contents are in effect.
    Enabled,
    /// Its contents are withdrawn.
    Disabled,
}

/// Storage string of a status.
pub open spec fn plugin_status_str(s: PluginStatus) -> Seq<char> {
    match s {
        PluginStatus::Enabled => "enabled"@,
        PluginStatus::Disabled => "disabled"@,
    }
}

/// The status a storage string names (anything but `disabled` is enabled).
pub open spec fn parse_plugin_status(s: Seq<char>) -> PluginStatus {
    if s == "disabled"@ {
        PluginStatus::Disabled
    } else {
        PluginStatus::Enabled
    }
}

impl PluginStatus {
    /// Storage string.
    pub fn as_str(&self) -> (s: &'static str)
        ensures
            s@ == plugin_status_str(*self),
    {
        match self {
            PluginStatus::Enabled => "enabled",
            PluginStatus::Disabled => "disabled",
        }
    }

    /// Parses a storage string.
    pub fn parse(s: &str) -> (r: PluginStatus)
        ensures
            r == parse_plugin_status(s@),
    {
        if eq_str(&chars_of(s), "disabled") {
            PluginStatus::Disabled
        } else {
            PluginStatus::Enabled
        }
    }
}

/// Parsing a status's storage string gives the status back.
pub proof fn lemma_plugin_status_roundtrip(s: PluginStatus)
    ensures
        parse_plugin_status(plugin_status_str(s)) == s,
{
    reveal_strlit("enabled");
    reveal_strlit("disabled");
    assert("enabled"@.len() != "disabled"@.len());
}

/// The declaration a plugin package carries (its JSON descriptor file).
#[derive(Debug, Clone)]
pub struct PluginManifest {
    /// Name (a lower-case directory name).
    pub name: String,
    /// Version (`0.1.0` when the manifest has none).
    pub version: String,
    /// Author.
    pub author: String,
    /// Description.
    pub description: String,
    /// Lowest host version (recorded only).
    pub cyan_min_version: Option<String>,
    /// Declared permissions.
    pub permissions: Vec<String>,
}

/// The version a manifest without one gets.
pub fn default_version() -> (r: String)
    ensures
        r@ == "0.1.0"@,
{
    owned("0.1.0")
}

/// A character a plugin name may hold.
pub open spec fn is_name_char(c: char) -> bool {
    is_lower(c) || is_digit(c) || c == '-' || c == '_'
}

/// Whether `n` is a legal plugin name: lower-case letters, digits, `-` and
/// `_`, not starting with `-` or `_`, at most 64 characters.
pub open spec fn legal_plugin_name(n: Seq<char>) -> bool {
    &&& forall|i: int| 0 <= i < n.len() ==> is_name_char(#[trigger] n[i])
    &&& !(n.len() > 0 && (n[0] == '-' || n[0] == '_'))
    &&& n.len() <= 64
}

/// The declarable permissions.
pub open spec fn allowed_permission(p: Seq<char>) -> bool {
    p == "skills"@ || p == "mcp"@ || p == "rules"@
}

/// Why a manifest is refused, if it is: a blank name, an illegal name, or
/// (the first) permission outside the allowed ones.
pub open spec fn manifest_invalid(m: PluginManifest) -> Option<Seq<char>> {
    if is_blank(m.name@) {
        Some("manifest 缺少 name"@)
    } else if !legal_plugin_name(m.name@) {
        Some("插件名须为小写字母/数字/连字符/下划线且不以符号开头："@ + m.name@)
    } else {
        match first_unknown_permission(m.permissions@) {
            Some(i) => Some("未知权限声明："@ + m.permissions@[i]@ + "（白名单：skills/mcp/rules）"@),
            None => None,
        }
    }
}

/// Index of the first permission outside the allowed ones.
pub open spec fn first_unknown_permission(p: Seq<String>) -> Option<int>
    decreases p.len(),
{
    if p.len() == 0 {
        None
    } else if !allowed_permission(p[0]@) {
        Some(0)
    } else {
        match first_unknown_permission(p.drop_first()) {
            Some(i) => Some(i + 1),
            None => None,
        }
    }
}

proof fn lemma_first_unknown(p: Seq<String>, i: int)
    requires
        0 <= i <= p.len(),
        forall|j: int| 0 <= j < i ==> allowed_permission(#[trigger] p[j]@),
        i < p.len() ==> !allowed_permission(p[i]@),
    ensures
        first_unknown_permission(p) == (if i < p.len() {
            Some(i)
        } else {
            None::<int>
        }),
    decreases i,
{
    if i > 0 {
        let t = p.drop_first();
        assert forall|j: int| 0 <= j < i - 1 implies allowed_permission(#[trigger] t[j]@) by {
            assert(t[j] == p[j + 1]);
        }
        if i < p.len() {
            assert(t[i - 1] == p[i]);
        }
        lemma_first_unknown(t, i - 1);
    }
}

impl PluginManifest {
    /// Validation (see [`manifest_invalid`]).
    pub fn validate(&self) -> (r: Result<(), DomainError>)
        ensures
            match manifest_invalid(*self) {
                None => r is Ok,
                Some(m) => r matches Err(DomainError::Validation(e)) && e@ == m,
            },
    {
        let name = chars_of(self.name.as_str());
        if is_blank_vec(&name) {
            return Err(DomainError::Validation(owned("manifest 缺少 name")));
        }
        let mut legal = true;
        for i in 0..name.len()
            invariant
                legal == (forall|k: int| 0 <= k < i ==> is_name_char(#[trigger] name@[k])),
        {
            let c = name[i];
            if !(is_ascii_lower(c) || is_ascii_digit(c) || c == '-' || c == '_') {
                legal = false;
            }
        }
        if !legal || (name.len() > 0 && (name[0] == '-' || name[0] == '_')) || name.len() > 64 {
            let m = concat_vec(&chars_of("插件名须为小写字母/数字/连字符/下划线且不以符号开头："), &name);
            return Err(DomainError::Validation(string_of(&m)));
        }
        for i in 0..self.permissions.len()
            invariant
                manifest_invalid(*self) == (match first_unknown_permission(self.permissions@) {
                    Some(k) => Some("未知权限声明："@ + self.permissions@[k]@ + "（白名单：skills/mcp/rules）"@),
                    None => None::<Seq<char>>,
                }),
                forall|k: int| 0 <= k < i ==> allowed_permission(#[trigger] self.permissions@[k]@),
        {
            let p = self.permissions[i].as_str();
            let pv = chars_of(p);
            if !(eq_str(&pv, "skills") || eq_str(&pv, "mcp") || eq_str(&pv, "rules")) {
                proof {
                    lemma_first_unknown(self.permissions@, i as int);
                }
                let mut m = chars_of("未知权限声明：");
                extend_str(&mut m, p);
                extend_str(&mut m, "（白名单：skills/mcp/rules）");
                return Err(DomainError::Validation(string_of(&m)));
            }
        }
        proof {
            lemma_first_unknown(self.permissions@, self.permissions@.len() as int);
        }
        Ok(())
    }

    /// Whether the manifest declares `perm`.
    pub fn has_permission(&self, perm: &str) -> (b: bool)
        ensures
            b == exists|i: int| 0 <= i < self.permissions@.len() && #[trigger] self.permissions@[i]@ == perm@,
    {
        for i in 0..self.permissions.len()
            invariant
                forall|k: int| 0 <= k < i ==> #[trigger] self.permissions@[k]@ != perm@,
        {
            if str_eq(self.permissions[i].as_str(), perm) {
                return true;
            }
        }
        false
    }
}

/// An installed plugin.
#[derive(Debug, Clone)]
pub struct Plugin {
    /// Primary key (filled after insert).
    pub id: i64,
    /// Unique name (the package directory).
    pub name: String,
    /// Version.
    pub version: String,
    /// Author.
    pub author: String,
    /// Description.
    pub description: String,
    /// Status.
    pub status: PluginStatus,
    /// Skills carried.
    pub skill_count: i64,
    /// MCP servers carried.
    pub mcp_count: i64,
    /// Permission rules carried.
    pub rule_count: i64,
    /// Installation time.
    pub created_at: NaiveDateTime,
    /// Last update time.
    pub updated_at: NaiveDateTime,
}

impl Plugin {
    /// A plugin built from its manifest and content counts (not stored yet),
    /// enabled.
    pub fn from_manifest(m: &PluginManifest, counts: (i64, i64, i64), now: NaiveDateTime) -> (p: Plugin)
        ensures
            p == (Plugin {
                id: 0,
                name: m.name,
                version: m.version,
                author: m.author,
                description: m.description,
                status: PluginStatus::Enabled,
                skill_count: counts.0,
                mcp_count: counts.1,
                rule_count: counts.2,
                created_at: now,
                updated_at: now,
            }),
    {
        Plugin {
            id: 0,
            name: m.name.clone(),
            version: m.version.clone(),
            author: m.author.clone(),
            description: m.description.clone(),
            status: PluginStatus::Enabled,
            skill_count: counts.0,
            mcp_count: counts.1,
            rule_count: counts.2,
            created_at: now,
            updated_at: now,
        }
    }

    /// Enables the plugin; returns whether it was disabled (an enabled
    /// plugin is left as it is).
    pub fn enable(&mut self) -> (changed: bool)
        ensures
            changed == (old(self).status == PluginStatus::Disabled),
            *final(self) == with_status(*old(self), PluginStatus::Enabled),
    {
        if self.status == PluginStatus::Enabled {
            return false;
        }
        self.status = PluginStatus::Enabled;
        true
    }

    /// Disables the plugin; returns whether it was enabled.
    pub fn disable(&mut self) -> (changed: bool)
        ensures
            changed == (old(self).status == PluginStatus::Enabled),
            *final(self) == with_status(*old(self), PluginStatus::Disabled),
    {
        if self.status == PluginStatus::Disabled {
            return false;
        }
        self.status = PluginStatus::Disabled;
        true
    }
}

/// The plugin with its status set to `status`, all else unchanged.
pub open spec fn with_status(p: Plugin, status: PluginStatus) -> Plugin {
    Plugin { status, ..p }
}

/// Enabling or disabling is idempotent: setting a status a second time
/// leaves the plugin as the first time left it, and reports no change
/// (`enable` and `disable` report a change exactly when the status was the
/// other one).
pub proof fn lemma_enable_disable_idempotent(p: Plugin, status: PluginStatus)
    ensures
        with_status(with_status(p, status), status) == with_status(p, status),
        with_status(p, status).status == status,
{
}

/// Port and process of a started sidecar.
#[derive(Debug, Clone, Copy, PartialEq, Eq, Structural)]
pub struct SidecarInfo {
    /// Port.
    pub port: u16,
    /// Process id.
    pub pid: u32,
}

/// Live state of a sidecar.
#[derive(Debug, Clone, Copy, PartialEq, Eq, Structural)]
pub struct SidecarStatus {
    /// Whether it runs.
    pub running: bool,
    /// Port it holds.
    pub port: Option<u16>,
}

impl Default for SidecarStatus {
    fn default() -> (s: SidecarStatus)
        ensures
            !s.running && s.port is None,
    {
        SidecarStatus { running: false, port: None }
    }
}

} // verus!
