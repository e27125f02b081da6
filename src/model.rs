//! The data model: provider configurations, profiles, the live configuration
//! as read back, and the library's error type.

use vstd::prelude::*;
use crate::assoc::map_of;

verus! {

/// One endpoint of the Codex tool, as a `[model_providers.<id>]` table
/// describes it, plus three fields that only profiles keep: `model`,
/// `model_reasoning_effort` and `api_key`.
#[derive(Debug, Clone, PartialEq)]
pub struct CodexProviderConfig {
    pub name: Option<String>,
    pub base_url: Option<String>,
    pub wire_api: Option<String>,
    pub requires_openai_auth: Option<bool>,
    pub env_key: Option<String>,
    pub env_key_instructions: Option<String>,
    pub http_headers: Option<Vec<(String, String)>>,
    pub query_params: Option<Vec<(String, String)>>,
    pub model: Option<String>,
    pub model_reasoning_effort: Option<String>,
    pub api_key: Option<String>,
}

/// A named, timestamped bundle of providers with a default provider and
/// profile-level fallbacks for model, effort and key.
#[derive(Debug, Clone, PartialEq)]
pub struct CodexProfile {
    pub id: String,
    pub name: String,
    pub description: Option<String>,
    pub created_at: String,
    pub updated_at: String,
    pub providers: Vec<(String, CodexProviderConfig)>,
    pub model_provider: String,
    pub model: String,
    pub model_reasoning_effort: Option<String>,
    pub api_key: Option<String>,
}

/// Whether the tool's two live files exist, and where they are.
#[derive(Debug, Clone, PartialEq)]
pub struct CodexConfigStatus {
    pub auth_exists: bool,
    pub config_exists: bool,
    pub auth_path: String,
    pub config_path: String,
}

/// The tool's live configuration, read back in the shape of a profile.
#[derive(Debug, Clone, PartialEq)]
pub struct CodexCurrentConfig {
    pub providers: Vec<(String, CodexProviderConfig)>,
    pub model_provider: String,
    pub model: String,
    pub model_reasoning_effort: Option<String>,
    pub api_key: Option<String>,
}

/// What the library refuses; each variant carries a readable message. File
/// access, and so its failures, are the caller's.
#[derive(Debug, Clone, PartialEq)]
pub enum CodexError {
    NotFound(String),
    InvalidArgument(String),
    ParseError(String),
    AlreadyExists(String),
}

impl CodexError {
    /// The readable message of the error.
    pub fn message(&self) -> (r: String)
        ensures
            r@ == match self {
                CodexError::NotFound(m) => m@,
                CodexError::InvalidArgument(m) => m@,
                CodexError::ParseError(m) => m@,
                CodexError::AlreadyExists(m) => m@,
            },
    {
        match self {
            CodexError::NotFound(m) => m.clone(),
            CodexError::InvalidArgument(m) => m.clone(),
            CodexError::ParseError(m) => m.clone(),
            CodexError::AlreadyExists(m) => m.clone(),
        }
    }
}

pub open spec fn opt_str(o: Option<String>) -> Option<Seq<char>> {
    match o {
        Some(s) => Some(s@),
        None => None,
    }
}

/// A string-to-string association list as a map of character sequences.
pub open spec fn str_map(s: Seq<(String, String)>) -> Map<Seq<char>, Seq<char>> {
    map_of(s).map_values(|v: String| v@)
}

pub open spec fn opt_str_map(o: Option<Vec<(String, String)>>) -> Option<Map<Seq<char>, Seq<char>>> {
    match o {
        Some(v) => Some(str_map(v@)),
        None => None,
    }
}

/// The mathematical content of a provider configuration.
pub struct ProviderView {
    pub name: Option<Seq<char>>,
    pub base_url: Option<Seq<char>>,
    pub wire_api: Option<Seq<char>>,
    pub requires_openai_auth: Option<bool>,
    pub env_key: Option<Seq<char>>,
    pub env_key_instructions: Option<Seq<char>>,
    pub http_headers: Option<Map<Seq<char>, Seq<char>>>,
    pub query_params: Option<Map<Seq<char>, Seq<char>>>,
    pub model: Option<Seq<char>>,
    pub model_reasoning_effort: Option<Seq<char>>,
    pub api_key: Option<Seq<char>>,
}

impl ProviderView {
    /// The part that the tool's configuration file knows: the three
    /// profile-only fields cleared.
    pub open spec fn external(self) -> ProviderView {
        ProviderView { model: None, model_reasoning_effort: None, api_key: None, ..self }
    }
}

impl View for CodexProviderConfig {
    type V = ProviderView;

    open spec fn view(&self) -> ProviderView {
        ProviderView {
            name: opt_str(self.name),
            base_url: opt_str(self.base_url),
            wire_api: opt_str(self.wire_api),
            requires_openai_auth: self.requires_openai_auth,
            env_key: opt_str(self.env_key),
            env_key_instructions: opt_str(self.env_key_instructions),
            http_headers: opt_str_map(self.http_headers),
            query_params: opt_str_map(self.query_params),
            model: opt_str(self.model),
            model_reasoning_effort: opt_str(self.model_reasoning_effort),
            api_key: opt_str(self.api_key),
        }
    }
}

/// A provider association list as a map from provider id to provider view.
pub open spec fn providers_view(s: Seq<(String, CodexProviderConfig)>) -> Map<Seq<char>, ProviderView> {
    map_of(s).map_values(|c: CodexProviderConfig| c@)
}

} // verus!
