use std::collections::HashMap;
use vstd::prelude::*;

use crate::text::{byte_len, byte_len_at_most, is_blank, str_is_blank};

verus! {

/// How serious a detected event is, from least to most.
#[derive(Debug, Clone, Copy, PartialEq, Eq, Structural)]
pub enum Severity {
    Low,
    Medium,
    High,
    Critical,
}

/// The wire name of a severity ("Low", "Medium", "High", "Critical").
pub open spec fn severity_name(s: Severity) -> Seq<char> {
    match s {
        Severity::Low => "Low"@,
        Severity::Medium => "Medium"@,
        Severity::High => "High"@,
        Severity::Critical => "Critical"@,
    }
}

impl Severity {
    /// The name under which a severity travels to the server.
    pub fn name(&self) -> (r: &'static str)
        ensures
            r@ == severity_name(*self),
    {
        match self {
            Severity::Low => "Low",
            Severity::Medium => "Medium",
            Severity::High => "High",
            Severity::Critical => "Critical",
        }
    }
}

/// A classified log line, before it is sent to the server.
#[derive(Debug)]
pub struct LogEntry {
    pub severity: Severity,
    pub user: String,
    pub message: String,
}

#[derive(Debug)]
pub struct LogRow {
    pub id: i32,
    pub severity: String,
    pub user: String,
    pub message: String,
    pub host: String,
}

#[derive(Debug)]
pub struct HostSummaryRow {
    pub host: String,
    pub total: i64,
    pub critical: i64,
    pub high: i64,
    pub medium: i64,
    pub low: i64,
}

#[derive(Debug)]
pub struct LogsQuery {
    pub host: String,
    pub limit: Option<i64>,
    pub offset: Option<i64>,
}

#[derive(Debug)]
pub struct PaginatedLogs {
    pub logs: Vec<LogRow>,
    pub total: i64,
    pub limit: i64,
    pub offset: i64,
}

/// What a shipper sends for one event; the severity travels as its name.
#[derive(Debug)]
pub struct NewLogEntry {
    pub severity: String,
    pub user: String,
    pub message: String,
    pub host: String,
}

/// The server's acceptance rule for a submitted event: no field blank, and
/// each field within its byte budget (host 255, severity 20, user 255,
/// message 5000).
pub open spec fn new_log_entry_ok(
    severity: Seq<char>,
    user: Seq<char>,
    message: Seq<char>,
    host: Seq<char>,
) -> bool {
    &&& !is_blank(severity)
    &&& !is_blank(user)
    &&& !is_blank(message)
    &&& !is_blank(host)
    &&& byte_len(host) <= 255
    &&& byte_len(severity) <= 20
    &&& byte_len(user) <= 255
    &&& byte_len(message) <= 5000
}

impl NewLogEntry {
    pub fn is_valid(&self) -> (r: bool)
        ensures
            r == new_log_entry_ok(self.severity@, self.user@, self.message@, self.host@),
    {
        !str_is_blank(self.severity.as_str()) && !str_is_blank(self.user.as_str())
            && !str_is_blank(self.message.as_str()) && !str_is_blank(self.host.as_str())
            && byte_len_at_most(self.host.as_str(), 255) && byte_len_at_most(
            self.severity.as_str(),
            20,
        ) && byte_len_at_most(self.user.as_str(), 255) && byte_len_at_most(
            self.message.as_str(),
            5000,
        )
    }
}

#[derive(Debug)]
pub struct SignupRequest {
    pub username: String,
    pub password: String,
}

#[derive(Debug)]
pub struct LoginRequest {
    pub username: String,
    pub password: String,
}

#[derive(Debug)]
pub struct LoginResponse {
    pub must_change_password: bool,
    pub mfa_required: bool,
    pub pending_token: Option<String>,
}

#[derive(Debug)]
pub struct MfaSetupResponse {
    pub otpauth_url: String,
    pub secret_base32: String,
}

#[derive(Debug)]
pub struct MfaCodeRequest {
    pub code: String,
}

#[derive(Debug)]
pub struct MfaDisableRequest {
    pub password: String,
}

#[derive(Debug)]
pub struct MfaLoginVerifyRequest {
    pub pending_token: String,
    pub code: String,
}

#[derive(Debug)]
pub struct AdminCreateUserRequest {
    pub username: String,
    pub role: String,
}

#[derive(Debug)]
pub struct RegisterAgentRequest {
    pub hostname: String,
}

#[derive(Debug)]
pub struct RegisterAgentResponse {
    pub agent_id: i32,
    pub api_key: String,
}

#[derive(Debug)]
pub struct AddPathRequest {
    pub path: String,
}

#[derive(Debug)]
pub struct AgentConfigResponse {
    pub hostname: String,
    pub paths: Vec<String>,
}

#[derive(Debug)]
pub struct EnrollmentTokenResponse {
    pub token: String,
}

#[derive(Debug)]
pub struct SelfRegisterRequest {
    pub enrollment_token: String,
    pub hostname: String,
}

/// A configured alert destination; `config` is the channel's raw JSON text.
#[derive(Debug)]
pub struct NotificationChannel {
    pub id: i32,
    pub kind: String,
    pub name: String,
    pub config: String,
    pub min_severity: String,
    pub enabled: bool,
}

#[derive(Debug)]
pub struct EmailConfig {
    pub smtp_host: String,
    pub smtp_port: u16,
    pub username: String,
    pub password: String,
    pub from: String,
    pub to: String,
}

#[derive(Debug)]
pub struct SlackConfig {
    pub webhook_url: String,
}

#[derive(Debug)]
pub struct DiscordConfig {
    pub webhook_url: String,
}

#[derive(Debug)]
pub struct TelegramConfig {
    pub bot_token: String,
    pub chat_id: String,
}

#[derive(Debug)]
pub struct NtfyConfig {
    pub server_url: String,
    pub topic: String,
}

#[derive(Debug)]
pub struct GenericWebhookConfig {
    pub url: String,
    pub headers: HashMap<String, String>,
}

} // verus!
