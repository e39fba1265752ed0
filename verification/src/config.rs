//! Configuration data: the plain settings each subsystem is constructed
//! from.  Loading them from disk is an outer concern; the library holds the
//! values.

use vstd::prelude::*;
use crate::fallback::ModelConfig;

verus! {

/// Top-level agent settings.
pub struct AgentConfig {
    pub name: String,
    pub heartbeat_interval_secs: u64,
    /// Deeper check-in interval (memory flush, pattern curation).
    pub gateway_heartbeat_interval_secs: u64,
    pub workspace_path: String,
    pub bootstrap_max_chars: usize,
}

/// Model backend settings.  The sampling temperature is a wire-level detail
/// of the HTTP callers and lives with them.
pub struct BrainConfig {
    /// The backend kind: "ollama", "openai_compatible", "llamacpp" or the
    /// OAuth-token backend.
    pub backend: String,
    pub model: String,
    pub endpoint: String,
    pub api_key: Option<String>,
    pub vision_enabled: bool,
    pub max_tokens: u32,
    /// Thinking level: off, low, medium or high.
    pub thinking: String,
    /// Path of the OAuth token file, when not the default.
    pub codex_auth_path: Option<String>,
    pub fallback_on_rate_limit: bool,
    pub fallback_on_auth_error: bool,
    pub fallback_on_timeout: bool,
    pub fallback_cooldown_secs: u64,
    pub fallbacks: Vec<ModelConfig>,
}

/// Perception settings.
pub struct PerceptionConfig {
    /// The bridge mode: "adb" or "websocket".
    pub bridge_mode: String,
    pub adb_device: Option<String>,
    pub android_ws_address: String,
    pub screen_capture_interval_secs: u64,
    pub notifications_enabled: bool,
    pub accessibility_enabled: bool,
    /// Notifications from these apps trigger immediate ticks.
    pub priority_apps: Vec<String>,
}

/// Executor settings.
pub struct ActionConfig {
    pub dry_run: bool,
    pub confirmation_timeout_secs: u64,
    /// Apps whose actions are always treated as high risk.
    pub restricted_apps: Vec<String>,
}

impl Default for ActionConfig {
    /// The defaults: real execution, a one-minute confirmation window, no
    /// restricted apps.
    fn default() -> (r: Self)
        ensures
            !r.dry_run,
            r.confirmation_timeout_secs == 60,
            r.restricted_apps@.len() == 0,
    {
        ActionConfig { dry_run: false, confirmation_timeout_secs: 60, restricted_apps: Vec::new() }
    }
}

/// Dashboard server settings.
pub struct ServerConfig {
    pub host: String,
    pub port: u16,
    pub auth_token: Option<String>,
}

impl Default for ServerConfig {
    /// The defaults: every interface, the service's usual port, no token.
    fn default() -> (r: Self)
        ensures
            r.host@ == "0.0.0.0"@,
            r.port == 8420,
            r.auth_token is None,
    {
        ServerConfig { host: "0.0.0.0".to_owned(), port: 8420, auth_token: None }
    }
}

/// One scheduled message injection.
pub struct CronJob {
    pub name: String,
    /// A cron expression.
    pub schedule: String,
    /// The message injected into the agent.
    pub message: String,
    pub enabled: bool,
}

/// Optional hook scripts.
pub struct HooksConfig {
    pub on_boot: Option<String>,
    pub on_session_new: Option<String>,
    pub on_unlock: Option<String>,
}

impl Default for HooksConfig {
    /// The defaults: no hooks.
    fn default() -> (r: Self)
        ensures
            r.on_boot is None,
            r.on_session_new is None,
            r.on_unlock is None,
    {
        HooksConfig { on_boot: None, on_session_new: None, on_unlock: None }
    }
}

} // verus!
