//! Rows of the model table.
use vstd::prelude::*;

use crate::domain::config::model::parse_model_status;
use crate::domain::config::{ModelConfig, ModelStatus};
use crate::infra::db::{stored, parse_time, times_read};

verus! {

/// A model row.
#[derive(Debug)]
pub struct ModelDO {
    /// Id.
    pub id: i64,
    /// Name (unique).
    pub name: String,
    /// Provider.
    pub provider: String,
    /// Base URL.
    pub base_url: String,
    /// API key reference.
    pub api_key: String,
    /// Context window.
    pub context_window: i64,
    /// Default model (non-zero).
    pub is_default: i64,
    /// Status text.
    pub status: String,
    /// Created by.
    pub created_by: String,
    /// Updated by.
    pub updated_by: String,
    /// Creation time.
    pub created_at: String,
    /// Update time.
    pub updated_at: String,
    /// Soft-deletion time.
    pub deleted_at: Option<String>,
}

impl ModelDO {
    /// The model a row holds, given its parsed times.
    pub fn with_times(self, created_at: chrono::NaiveDateTime, updated_at: chrono::NaiveDateTime) -> (m: ModelConfig)
        ensures
            m == (ModelConfig {
                id: self.id,
                name: self.name,
                provider: self.provider,
                base_url: self.base_url,
                api_key_ref: self.api_key,
                context_window: self.context_window,
                is_default: self.is_default != 0,
                status: parse_model_status(self.status@),
                created_at,
                updated_at,
            }),
    {
        let status = ModelStatus::parse(self.status.as_str());
        ModelConfig {
            id: self.id,
            name: self.name,
            provider: self.provider,
            base_url: self.base_url,
            api_key_ref: self.api_key,
            context_window: self.context_window,
            is_default: self.is_default != 0,
            status,
            created_at,
            updated_at,
        }
    }


    /// The model configuration a row holds; fails when a time does not read.
    pub fn into_domain(self) -> (r: Result<ModelConfig, String>)
        ensures
            r is Ok <==> times_read(self.created_at@, self.updated_at@),
            r matches Ok(m) ==> {
                &&& Some(m.created_at) == stored(self.created_at@)
                &&& Some(m.updated_at) == stored(self.updated_at@)
                &&& m.id == self.id
                &&& m.name == self.name
                &&& m.provider == self.provider
                &&& m.base_url == self.base_url
                &&& m.api_key_ref == self.api_key
                &&& m.context_window == self.context_window
                &&& m.is_default == (self.is_default != 0)
                &&& m.status == parse_model_status(self.status@)
            },
    {
        let created_at = match parse_time(self.created_at.as_str()) {
            Ok(t) => t,
            Err(e) => return Err(e),
        };
        let updated_at = match parse_time(self.updated_at.as_str()) {
            Ok(t) => t,
            Err(e) => return Err(e),
        };
        Ok(self.with_times(created_at, updated_at))
    }
}

} // verus!
