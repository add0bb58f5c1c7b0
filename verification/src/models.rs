//! Data shared between the modules: reports, payloads, settings and replies.

use vstd::prelude::*;

use crate::text::{
    ascii_lowercase, ascii_uppercase, concat3, is_ws, same_text, to_ascii_lowercase, trim, trimmed,
};

verus! {

/// An error reported by the browser extension.
#[derive(Debug, Clone)]
pub struct ErrorReport {
    pub url: String,
    pub error: String,
}

/// A navigation or hover intent sent by the extension.
#[derive(Debug, Clone)]
pub struct NavigationPayload {
    pub current_url: String,
    pub target_url: Option<String>,
    pub action_type: String,
}

/// A fix that can be run: `"BROWSER_JS"` runs in the extension, `"SYS_CMD"` in the core.
#[derive(Debug, Clone)]
pub struct FixAction {
    pub action_id: String,
    pub script_type: String,
    pub code: String,
}

/// A suggestion with an optional fix.
#[derive(Debug, Clone)]
pub struct AISuggestion {
    pub title: String,
    pub desc: String,
    pub auto_fix: bool,
    pub action: Option<FixAction>,
}

/// A fix card shown by the desktop front end.
#[derive(Debug, Clone)]
pub struct FixSuggestion {
    pub id: String,
    pub title: String,
    pub desc: String,
    pub button_text: String,
    pub action_type: String,
    pub script_type: Option<String>,
    pub code: Option<String>,
}

/// The parameters of an MCP request, as far as the dispatcher reads them:
/// the parameters read as a page snapshot, read as a tab heartbeat, and the
/// string fields `source` and `target`; each is absent where the parameters
/// do not have that shape.
#[derive(Debug, Clone)]
pub struct McpParams {
    pub snapshot: Option<PageSnapshot>,
    pub tab_state: Option<TabState>,
    pub source: Option<String>,
    pub target: Option<String>,
}

/// An MCP JSON-RPC request.
#[derive(Debug, Clone)]
pub struct McpRequest {
    pub method: String,
    pub params: McpParams,
    pub id: i64,
}

/// A tab state heartbeat. `snapshot` holds the raw JSON text of the
/// extension's page snapshot, which the core passes through unread.
#[derive(Debug, Clone)]
pub struct TabState {
    pub url: String,
    pub title: Option<String>,
    pub score: i32,
    pub last_heartbeat: u64,
    pub active_reasons: Vec<String>,
    pub snapshot: String,
}

/// The `result` object of an MCP reply.
#[derive(Debug, Clone)]
pub enum McpResult {
    /// `{"status": "Ignored", "reason": "Privacy Block"}`
    PrivacyBlocked,
    /// `{"status": "pong"}`
    Pong,
    /// `{"memory_usage_percent": .., "status": "Healthy"}`, filled from a memory reading
    SystemStatus,
    /// `{"status": "Saved"}`
    Saved,
    /// `{"error": "Serialize Error"}`
    SerializeError,
    /// `{"error": "Invalid Data"}`
    InvalidData,
    /// `{"error": "Permission Denied"}`
    PermissionDenied,
    /// `{"status": "Executed"}`
    Executed,
    /// `{"status": "ok", "score": score}`
    HeartbeatOk { score: i32 },
    /// `{"status": "error", "message": "Invalid Data format"}`
    HeartbeatInvalid,
    /// `{"status": "Added"}`
    Added,
    /// `{"error": "DB Error"}`
    DbError,
    /// `{"error": "Missing Params"}`
    MissingParams,
    /// `{"status": "Unknown Method"}`
    UnknownMethod,
}

/// An MCP JSON-RPC reply.
#[derive(Debug, Clone)]
pub struct McpResponse {
    pub jsonrpc: String,
    pub result: McpResult,
    pub id: i64,
}

/// Run-time settings of the MCP endpoint, read on every request.
#[derive(Debug, Clone)]
pub struct McpSettings {
    pub ai_enabled: bool,
    /// whether the assistant may freeze tabs
    pub allow_tab_freeze: bool,
    /// whether the assistant may repair the network (DNS)
    pub allow_network_fix: bool,
    pub auto_execute: bool,
    pub auth_token: String,
}

/// A manual preload rule: the subdomain to warm up for a site.
#[derive(Debug, Clone)]
pub struct ManualRule {
    /// target subdomain, such as `"message"`
    pub target_sub: String,
    /// whether the warm-up may carry cookies (an L2 preload)
    pub allow_cookie: bool,
}

/// A measurement of network quality.
#[derive(Debug, Clone)]
pub struct NetworkPulse {
    pub dns_time_ms: u128,
    pub tcp_handshake_ms: u128,
    /// 0 to 100
    pub quality_score: u8,
    pub diagnosis: String,
}

/// The network strategy of the background monitor.
#[derive(PartialEq, Eq, Structural, Clone, Copy, Debug)]
pub enum StrategyMode {
    /// Wi-Fi with low latency
    Performance,
    /// metered hotspot
    PowerSave,
    /// high latency or loss
    Recovery,
}

/// A page snapshot sent for storage.
#[derive(Debug, Clone)]
pub struct PageSnapshot {
    pub url: String,
    pub title: String,
    pub text_content: String,
    pub timestamp: u64,
}

/// A privacy rule: a domain pattern and its policy (`"BLOCK"`, `"READ_ONLY"` or `"ALLOW"`).
#[derive(Debug, Clone)]
pub struct PrivacyRule {
    pub domain_pattern: String,
    pub policy: String,
    pub reason: String,
}

/// How the session token is kept.
#[derive(PartialEq, Eq, Structural, Clone, Copy, Debug)]
pub enum TokenMode {
    /// written to disk and kept across restarts
    Fixed,
    /// kept in memory only and replaced at every start or switch
    Random,
}

impl Default for TokenMode {
    fn default() -> (m: Self)
        ensures
            m == TokenMode::Fixed,
    {
        TokenMode::Fixed
    }
}

/// The text a mode string is compared by: trimmed, then ASCII-lowercased.
pub open spec fn normalized_mode(s: Seq<char>) -> Seq<char> {
    ascii_lowercase(trimmed(s))
}

/// The message of a rejected mode string, given its normalized text.
pub open spec fn mode_error_message(norm: Seq<char>) -> Seq<char> {
    "无效的 token 模式: "@ + norm + "（仅支持 fixed / random）"@
}

/// What `TokenMode::parse` gives for a string.
pub open spec fn parse_mode_spec(s: Seq<char>) -> Result<TokenMode, Seq<char>> {
    let norm = normalized_mode(s);
    if norm == "fixed"@ {
        Ok(TokenMode::Fixed)
    } else if norm == "random"@ {
        Ok(TokenMode::Random)
    } else {
        Err(mode_error_message(norm))
    }
}

impl TokenMode {
    /// Reads a mode from the front end or the configuration, ignoring case
    /// and surrounding whitespace.
    pub fn parse(s: &str) -> (r: Result<TokenMode, String>)
        ensures
            match (r, parse_mode_spec(s@)) {
                (Ok(m), Ok(n)) => m == n,
                (Err(e), Err(f)) => e@ == f,
                _ => false,
            },
    {
        let norm = to_ascii_lowercase(trim(s));
        if same_text(norm.as_str(), "fixed") {
            Ok(TokenMode::Fixed)
        } else if same_text(norm.as_str(), "random") {
            Ok(TokenMode::Random)
        } else {
            Err(concat3("无效的 token 模式: ", norm.as_str(), "（仅支持 fixed / random）"))
        }
    }
}

/// The application configuration.
#[derive(Debug, Clone, Copy)]
pub struct AppConfig {
    pub token_mode: TokenMode,
}

impl Default for AppConfig {
    fn default() -> (c: Self)
        ensures
            c.token_mode == TokenMode::Fixed,
    {
        AppConfig { token_mode: TokenMode::Fixed }
    }
}

/// The session token as the desktop UI shows it.
#[derive(Debug, Clone)]
pub struct TokenInfo {
    pub token: String,
    pub mode: TokenMode,
    /// whether the token is written to the token file
    pub persisted: bool,
}

/// Mode strings are read without regard to ASCII case: lowercasing a mode
/// string first gives the same result.
pub proof fn law_mode_parsing_ignores_case(s: Seq<char>)
    ensures
        parse_mode_spec(ascii_lowercase(s)) == parse_mode_spec(s),
{
    crate::text::lemma_trimmed_lower(s);
    crate::text::lemma_trimmed_lower(trimmed(s));
}

/// Mode strings are read without regard to ASCII case or surrounding
/// whitespace: raising the ASCII letters, or adding whitespace on either
/// side, gives the same mode, and the same message when it is refused.
pub proof fn law_mode_parsing_ignores_case_and_padding(s: Seq<char>, w1: Seq<char>, w2: Seq<char>)
    requires
        forall|i: int| 0 <= i < w1.len() ==> is_ws(#[trigger] w1[i]),
        forall|i: int| 0 <= i < w2.len() ==> is_ws(#[trigger] w2[i]),
    ensures
        parse_mode_spec(ascii_uppercase(s)) == parse_mode_spec(s),
        parse_mode_spec(w1 + s + w2) == parse_mode_spec(s),
{
    let u = ascii_uppercase(s);
    crate::text::lemma_trimmed_lower(u);
    crate::text::lemma_trimmed_lower(s);
    crate::text::lemma_lower_of_upper(s);
    assert(normalized_mode(u) == normalized_mode(s));
    crate::text::lemma_trimmed_padded(w1, s, w2);
}

} // verus!
