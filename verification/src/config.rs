//! Settings of the bot.
use vstd::prelude::*;

verus! {

/// All settings.
#[derive(Debug, Clone, Default)]
pub struct AppConfig {
    pub database: DatabaseConfig,
    pub security: SecurityConfig,
    pub ai: AiConfig,
    pub signal: SignalConfig,
    pub performance: PerformanceConfig,
    pub bot: BotConfig,
}

/// Where the database is.
#[derive(Debug, Clone, Default)]
pub struct DatabaseConfig {
    pub url: String,
}

/// Secret keys.
#[derive(Debug, Clone, Default)]
pub struct SecurityConfig {
    pub profile_encryption_key: String,
    pub anonymize_key: String,
}

/// Where the models are and how they generate.
#[derive(Debug, Clone, Default)]
pub struct AiConfig {
    pub gcp_project_id: String,
    pub gcp_location: String,
    pub models: AiModelsConfig,
    pub generation: AiGenerationConfig,
}

/// The names of the models.
#[derive(Debug, Clone, Default)]
pub struct AiModelsConfig {
    pub chat: String,
    pub classification: String,
    pub imagen: String,
}

/// Generation settings for models that have none of their own.
#[derive(Debug, Clone, Default)]
pub struct AiGenerationConfig {
    /// The bits of the temperature as a double.
    pub temperature: u64,
    pub max_output_tokens: i32,
}

/// The Signal account.
#[derive(Debug, Clone, Default)]
pub struct SignalConfig {
    pub phone_number: Option<String>,
    pub data_path: String,
}

/// Limits.
#[derive(Debug, Clone)]
pub struct PerformanceConfig {
    pub max_concurrent_requests: usize,
    pub message_processing_timeout_secs: u64,
    pub api_cooldown_ms: u64,
}

/// Time between two calls of one endpoint where nothing else is configured.
pub const DEFAULT_API_COOLDOWN_MS: u64 = 1500;

impl Default for PerformanceConfig {
    fn default() -> (r: Self)
        ensures
            r.max_concurrent_requests == 0,
            r.message_processing_timeout_secs == 0,
            r.api_cooldown_ms == DEFAULT_API_COOLDOWN_MS,
    {
        PerformanceConfig {
            max_concurrent_requests: 0,
            message_processing_timeout_secs: 0,
            api_cooldown_ms: DEFAULT_API_COOLDOWN_MS,
        }
    }
}

/// The character of the bot and the shape of its answers.
#[derive(Debug, Clone, Default)]
pub struct BotConfig {
    pub name: String,
    pub location: String,
    pub persona: String,
    pub target_message_length_chars: usize,
    pub system_prompt: String,
    /// Whether a blank line starts a new message.
    pub enable_paragraph_splitting: bool,
    /// Whether an answer may become several messages at all.
    pub enable_message_splitting: bool,
    /// Pause between two messages of one answer.
    pub message_delay_ms: u64,
}

/// How long a model may think.
#[derive(Debug, Clone, Copy, PartialEq, Eq, Structural)]
pub enum ThinkingLevel {
    Low,
    Medium,
    High,
}

/// A model and the settings that it has of its own.
#[derive(Debug, Clone)]
pub struct ModelSettings {
    pub name: String,
    /// The bits of the temperature as a double.
    pub temperature: Option<u64>,
    pub max_output_tokens: Option<i32>,
    pub max_input_tokens: Option<i32>,
    pub thinking_level: Option<ThinkingLevel>,
}

impl ModelSettings {
    /// The model `name` with no settings of its own.
    pub fn named(name: &str) -> (r: ModelSettings)
        ensures
            r.name@ == name@,
            r.temperature is None,
            r.max_output_tokens is None,
            r.max_input_tokens is None,
            r.thinking_level is None,
    {
        ModelSettings {
            name: name.to_string(),
            temperature: None,
            max_output_tokens: None,
            max_input_tokens: None,
            thinking_level: None,
        }
    }
}

} // verus!
