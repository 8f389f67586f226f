//! Plain records exchanged with the command layer.
use vstd::prelude::*;

verus! {

/// One usage entry reported by the upstream service.
pub struct UsageData {
    pub id: i64,
    pub user_id: i64,
    pub username: String,
    pub model_name: String,
    pub created_at: i64,
    pub token_used: i64,
    pub count: i64,
    pub quota: i64,
}

/// The outcome of a usage query.
pub struct UsageStatsResult {
    pub success: bool,
    pub message: String,
    pub data: Vec<UsageData>,
}

/// What is known of one CLI tool on this machine.
pub struct ToolStatus {
    pub id: String,
    pub name: String,
    pub installed: bool,
    pub version: Option<String>,
    pub has_update: bool,
    pub latest_version: Option<String>,
    pub mirror_version: Option<String>,
    pub mirror_is_stale: bool,
}

/// The Node.js runtime found on this machine.
pub struct NodeEnvironment {
    pub node_available: bool,
    pub node_version: Option<String>,
    pub npm_available: bool,
    pub npm_version: Option<String>,
}

/// The outcome of installing a tool.
pub struct InstallResult {
    pub success: bool,
    pub message: String,
    pub output: String,
}

/// The outcome of checking a tool for updates.
pub struct UpdateResult {
    pub success: bool,
    pub message: String,
    pub has_update: bool,
    pub current_version: Option<String>,
    pub latest_version: Option<String>,
    /// The version the mirror can actually install.
    pub mirror_version: Option<String>,
    /// Whether the mirror lags behind the latest version.
    pub mirror_is_stale: Option<bool>,
    /// The tool checked, for batch checks.
    pub tool_id: Option<String>,
}

/// The credentials a tool currently uses.
pub struct ActiveConfig {
    pub api_key: String,
    pub base_url: String,
    /// The name of the profile in use, if any.
    pub profile_name: Option<String>,
}

/// What a second launch of the application hands to the running instance.
pub struct SingleInstancePayload {
    /// The command line arguments.
    pub args: Vec<String>,
    /// The working directory.
    pub cwd: String,
}

} // verus!
