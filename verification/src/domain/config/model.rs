//! Model configuration: normalisation, validation and key masking.
use vstd::prelude::*;
use chrono::NaiveDateTime;

use crate::domain::config::mcp::is_remote;
use crate::domain::DomainError;
use crate::domain::agent::bash::strip_trailing_slashes;
use crate::text::{chars_of, eq_str, extend_str, owned, slice_vec, string_of, trim, trim_vec};

verus! {

/// Whether a model is enabled.
#[derive(Debug, Clone, Copy, PartialEq, Eq, Structural)]
pub enum ModelStatus {
    /// Enabled.
    Enabled,
    /// Disabled.
    Disabled,
}

/// Storage string of a status.
pub open spec fn model_status_str(s: ModelStatus) -> Seq<char> {
    match s {
        ModelStatus::Enabled => "enabled"@,
        ModelStatus::Disabled => "disabled"@,
    }
}

/// The status a storage string names (anything but `disabled` is enabled).
pub open spec fn parse_model_status(s: Seq<char>) -> ModelStatus {
    if s == "disabled"@ {
        ModelStatus::Disabled
    } else {
        ModelStatus::Enabled
    }
}

impl ModelStatus {
    /// Storage string.
    pub fn as_str(&self) -> (s: &'static str)
        ensures
            s@ == model_status_str(*self),
    {
        match self {
            ModelStatus::Enabled => "enabled",
            ModelStatus::Disabled => "disabled",
        }
    }

    /// Parses a storage string.
    pub fn parse(s: &str) -> (r: ModelStatus)
        ensures
            r == parse_model_status(s@),
    {
        if eq_str(&chars_of(s), "disabled") {
            ModelStatus::Disabled
        } else {
            ModelStatus::Enabled
        }
    }
}

/// Parsing a status's storage string gives the status back.
pub proof fn lemma_model_status_roundtrip(s: ModelStatus)
    ensures
        parse_model_status(model_status_str(s)) == s,
{
    reveal_strlit("enabled");
    reveal_strlit("disabled");
    assert("enabled"@.len() != "disabled"@.len());
}

/// A model configuration.
#[derive(Debug, Clone)]
pub struct ModelConfig {
    /// Primary key (filled after insert).
    pub id: i64,
    /// Unique name.
    pub name: String,
    /// Provider.
    pub provider: String,
    /// Base URL (no trailing slash after normalisation).
    pub base_url: String,
    /// Reference to the API key (`keychain://cyan/model/<name>`).
    pub api_key_ref: String,
    /// Context window in tokens.
    pub context_window: i64,
    /// Whether this is the default model.
    pub is_default: bool,
    /// Status.
    pub status: ModelStatus,
    /// Creation time.
    pub created_at: NaiveDateTime,
    /// Last update time.
    pub updated_at: NaiveDateTime,
}

/// Why a model configuration is refused, if it is (checked in this order):
/// empty name, name over 50 characters, empty provider, base URL not
/// `http(s)://`, context window under 1000.
pub open spec fn model_invalid(m: ModelConfig) -> Option<Seq<char>> {
    if m.name@.len() == 0 {
        Some("模型名不能为空"@)
    } else if m.name@.len() > 50 {
        Some("模型名不能超过 50 字符"@)
    } else if m.provider@.len() == 0 {
        Some("Provider 不能为空"@)
    } else if !is_remote(m.base_url@) {
        Some("Base URL 必须以 http:// 或 https:// 开头"@)
    } else if m.context_window < 1000 {
        Some("上下文窗口不能小于 1000"@)
    } else {
        None
    }
}

/// The masked form of an API key: `sk-****` and its last four characters, or
/// `****` for four characters or fewer.
pub open spec fn masked(key: Seq<char>) -> Seq<char> {
    if key.len() <= 4 {
        "****"@
    } else {
        "sk-****"@ + key.skip(key.len() - 4)
    }
}

impl ModelConfig {
    /// A new, enabled, non-default configuration (not stored yet).
    pub fn new(
        name: String,
        provider: String,
        base_url: String,
        context_window: i64,
        now: NaiveDateTime,
    ) -> (m: ModelConfig)
        ensures
            m.id == 0,
            m.name == name,
            m.provider == provider,
            m.base_url == base_url,
            m.api_key_ref@.len() == 0,
            m.context_window == context_window,
            !m.is_default,
            m.status == ModelStatus::Enabled,
            m.created_at == now,
            m.updated_at == now,
    {
        ModelConfig {
            id: 0,
            name,
            provider,
            base_url,
            api_key_ref: String::new(),
            context_window,
            is_default: false,
            status: ModelStatus::Enabled,
            created_at: now,
            updated_at: now,
        }
    }

    /// The keychain reference of a model's API key.
    pub fn keychain_ref(name: &str) -> (r: String)
        ensures
            r@ == "keychain://cyan/model/"@ + name@,
    {
        let mut v = chars_of("keychain://cyan/model/");
        extend_str(&mut v, name);
        string_of(&v)
    }

    /// Normalisation: name and provider trimmed; base URL trimmed and without
    /// trailing slashes.
    pub fn normalize(&mut self)
        ensures
            final(self).name@ == trim(old(self).name@),
            final(self).provider@ == trim(old(self).provider@),
            final(self).base_url@ == strip_trailing_slashes(trim(old(self).base_url@)),
            final(self).id == old(self).id,
            final(self).api_key_ref == old(self).api_key_ref,
            final(self).context_window == old(self).context_window,
            final(self).is_default == old(self).is_default,
            final(self).status == old(self).status,
            final(self).created_at == old(self).created_at,
            final(self).updated_at == old(self).updated_at,
    {
        self.name = string_of(&trim_vec(&chars_of(self.name.as_str())));
        self.provider = string_of(&trim_vec(&chars_of(self.provider.as_str())));
        let t = trim_vec(&chars_of(self.base_url.as_str()));
        let mut n = t.len();
        assert(t@.take(n as int) =~= t@);
        while n > 0 && t[n - 1] == '/'
            invariant
                n <= t.len(),
                strip_trailing_slashes(t@) == strip_trailing_slashes(t@.take(n as int)),
            decreases n,
        {
            assert(t@.take(n as int).drop_last() =~= t@.take(n - 1));
            n = n - 1;
        }
        let u = slice_vec(&t, 0, n);
        assert(u@ =~= t@.take(n as int));
        self.base_url = string_of(&u);
    }

    /// Validation (see [`model_invalid`]).
    pub fn validate(&self) -> (r: Result<(), DomainError>)
        ensures
            match model_invalid(*self) {
                None => r is Ok,
                Some(m) => r matches Err(DomainError::Validation(e)) && e@ == m,
            },
    {
        let name = chars_of(self.name.as_str());
        if name.len() == 0 {
            return Err(DomainError::Validation(owned("模型名不能为空")));
        }
        if name.len() > 50 {
            return Err(DomainError::Validation(owned("模型名不能超过 50 字符")));
        }
        if chars_of(self.provider.as_str()).len() == 0 {
            return Err(DomainError::Validation(owned("Provider 不能为空")));
        }
        if !crate::domain::config::mcp::McpTransport::is_remote_url(self.base_url.as_str()) {
            return Err(DomainError::Validation(owned("Base URL 必须以 http:// 或 https:// 开头")));
        }
        if self.context_window < 1000 {
            return Err(DomainError::Validation(owned("上下文窗口不能小于 1000")));
        }
        Ok(())
    }

    /// Masks an API key (see [`masked`]).
    pub fn mask_key(key: &str) -> (r: String)
        ensures
            r@ == masked(key@),
    {
        let chars = chars_of(key);
        if chars.len() <= 4 {
            return owned("****");
        }
        let tail = slice_vec(&chars, chars.len() - 4, chars.len());
        let mut v = chars_of("sk-****");
        crate::text::extend_vec(&mut v, &tail);
        assert(tail@ =~= key@.skip(key@.len() - 4));
        string_of(&v)
    }
}

} // verus!
