//! The records that the library reads and produces.
use vstd::prelude::*;

verus! {

pub struct AppState {
    pub database_ready: bool,
    pub storage_path: String,
    pub app_data_dir: String,
    pub log_path: String,
    pub resource_dir: String,
    pub executable_dir: String,
}

pub struct AppHealth {
    pub app_name: String,
    pub version: String,
    pub database_ready: bool,
    pub storage_path: String,
}

pub struct ApprovalRequest {
    pub id: String,
    pub environment_id: String,
    pub action_type: String,
    pub target_ref: String,
    pub status: String,
    pub risk_level: String,
    pub rationale: String,
    pub rollback_hint: String,
    pub execution_summary: Option<String>,
    pub created_at: String,
    pub updated_at: String,
}

pub struct CreateApprovalInput {
    pub environment_id: String,
    pub action_type: String,
    pub target_ref: String,
    pub target_details_json: String,
    pub rationale: String,
    pub rollback_hint: Option<String>,
}

pub struct ExecuteApprovalInput {
    pub approval_id: String,
}

pub struct ChatSession {
    pub id: String,
    pub environment_id: String,
    pub title: String,
    pub status: String,
    pub created_at: String,
    pub updated_at: String,
}

pub struct ChatMessage {
    pub id: String,
    pub session_id: String,
    pub role: String,
    pub content: String,
    pub tool_name: Option<String>,
    pub tool_call_id: Option<String>,
    pub created_at: String,
}

pub struct ToolDefinition {
    pub name: String,
    pub description: String,
    pub input_hint: String,
}

pub struct ChatResponse {
    pub session: ChatSession,
    pub messages: Vec<ChatMessage>,
    pub assistant_message: ChatMessage,
    pub tool_catalog: Vec<ToolDefinition>,
    pub model_used: String,
}

pub struct SendChatMessageInput {
    pub session_id: Option<String>,
    pub environment_id: String,
    pub content: String,
    pub investigation_id: Option<String>,
    pub selected_evidence_ids: Option<Vec<String>>,
}

pub struct AttachToolEvidenceInput {
    pub session_id: Option<String>,
    pub environment_id: String,
    pub title: String,
    pub tool_name: String,
    pub content: String,
}

pub struct ConnectionProfile {
    pub id: String,
    pub environment_id: String,
    pub profile_type: String,
    pub name: String,
    pub endpoint: String,
    pub username: Option<String>,
    pub default_scope: Option<String>,
    pub notes: Option<String>,
    pub config_json: String,
    pub has_secret: bool,
    pub created_at: String,
    pub updated_at: String,
}

pub struct UpsertEnvironmentInput {
    pub id: String,
    pub name: String,
    pub kind: String,
    pub kubernetes_enabled: bool,
    pub elk_enabled: bool,
    pub ssh_enabled: bool,
    pub nacos_enabled: bool,
    pub redis_enabled: bool,
}

pub struct UpsertConnectionProfileInput {
    pub id: Option<String>,
    pub environment_id: String,
    pub profile_type: String,
    pub name: String,
    pub endpoint: String,
    pub username: Option<String>,
    pub default_scope: Option<String>,
    pub notes: Option<String>,
    pub config_json: Option<String>,
    pub secret_value: Option<String>,
}

pub struct ValidationResult {
    pub ok: bool,
    pub messages: Vec<String>,
}

pub struct EnvironmentProfile {
    pub id: String,
    pub name: String,
    pub kind: String,
    pub kubernetes_enabled: bool,
    pub elk_enabled: bool,
    pub ssh_enabled: bool,
    pub nacos_enabled: bool,
    pub redis_enabled: bool,
}

pub struct InvestigationSummary {
    pub id: String,
    pub title: String,
    pub environment_id: String,
    pub status: String,
    pub created_at: String,
    pub updated_at: String,
}

pub struct InvestigationEvidence {
    pub id: String,
    pub investigation_id: String,
    pub evidence_type: String,
    pub title: String,
    pub summary: String,
    pub content_json: String,
    pub created_at: String,
}

pub struct SaveInvestigationInput {
    pub investigation_id: Option<String>,
    pub title: Option<String>,
    pub environment_id: String,
    pub evidence_type: String,
    pub evidence_title: String,
    pub summary: String,
    pub content_json: String,
}

pub struct InvestigationSaveResponse {
    pub investigation: InvestigationSummary,
    pub evidence: InvestigationEvidence,
}

pub struct InvestigationTimelineEvent {
    pub id: String,
    pub timestamp: String,
    pub title: String,
    pub detail: String,
    pub source_type: String,
}

pub struct InvestigationDetail {
    pub investigation: InvestigationSummary,
    pub evidence: Vec<InvestigationEvidence>,
    pub timeline: Vec<InvestigationTimelineEvent>,
    pub correlations: Vec<InvestigationCorrelation>,
}

pub struct InvestigationReportInput {
    pub investigation_id: String,
}

pub struct InvestigationReport {
    pub investigation: InvestigationSummary,
    pub markdown: String,
    pub html: String,
}

pub struct InvestigationCorrelation {
    pub id: String,
    pub title: String,
    pub detail: String,
    pub confidence: String,
    pub linked_evidence_ids: Vec<String>,
}

pub struct ListKubernetesEventsInput {
    pub environment_id: String,
    pub namespace: String,
    pub involved_object: Option<String>,
    pub reason: Option<String>,
}

pub struct KubernetesEvent {
    pub id: String,
    pub namespace: String,
    pub kind: String,
    pub name: String,
    pub reason: String,
    pub level: String,
    pub message: String,
    pub event_time: String,
}

pub struct KubernetesEventsSummary {
    pub headline: String,
    pub likely_impact: Vec<String>,
    pub recommended_next_steps: Vec<String>,
}

pub struct ListKubernetesEventsResponse {
    pub environment_id: String,
    pub namespace: String,
    pub adapter_mode: String,
    pub query_summary: String,
    pub events: Vec<KubernetesEvent>,
    pub summary: KubernetesEventsSummary,
}

pub struct LogSearchInput {
    pub environment_id: String,
    pub service: Option<String>,
    pub pod: Option<String>,
    pub keyword: Option<String>,
    pub trace_id: Option<String>,
    pub time_range: String,
}

pub struct LogEntry {
    pub id: String,
    pub timestamp: String,
    pub environment_id: String,
    pub service: String,
    pub pod: String,
    pub level: String,
    pub trace_id: Option<String>,
    pub message: String,
}

pub struct LogCluster {
    pub id: String,
    pub label: String,
    pub level: String,
    pub count: usize,
    pub services: Vec<String>,
    pub example_message: String,
    pub trace_id: Option<String>,
}

pub struct LogSummary {
    pub headline: String,
    pub likely_causes: Vec<String>,
    pub recommended_next_steps: Vec<String>,
}

pub struct LogSearchResponse {
    pub environment_id: String,
    pub time_range: String,
    pub adapter_mode: String,
    pub executed_query: String,
    pub entries: Vec<LogEntry>,
    pub clusters: Vec<LogCluster>,
    pub summary: LogSummary,
}

pub struct CompareNacosConfigInput {
    pub source_environment_id: String,
    pub target_environment_id: String,
    pub data_id: String,
    pub group: String,
    pub namespace_id: Option<String>,
}

pub struct NacosConfigVersion {
    pub environment_id: String,
    pub profile_name: String,
    pub namespace_id: Option<String>,
    pub value: String,
}

pub struct NacosDiffEntry {
    pub key: String,
    pub status: String,
    pub source_value: Option<String>,
    pub target_value: Option<String>,
}

pub struct NacosDiffSummary {
    pub headline: String,
    pub likely_impact: Vec<String>,
    pub explanation: Vec<String>,
}

pub struct CompareNacosConfigResponse {
    pub source_environment_id: String,
    pub target_environment_id: String,
    pub data_id: String,
    pub group: String,
    pub namespace_id: Option<String>,
    pub adapter_mode: String,
    pub source: NacosConfigVersion,
    pub target: NacosConfigVersion,
    pub diff_entries: Vec<NacosDiffEntry>,
    pub summary: NacosDiffSummary,
}

pub struct AnalyzeRedisInput {
    pub environment_id: String,
    pub instance_name: Option<String>,
    pub time_range: String,
}

pub struct RedisInfoMetric {
    pub label: String,
    pub value: String,
    pub status: String,
    pub detail: String,
}

pub struct RedisSlowQuery {
    pub id: String,
    pub timestamp: String,
    pub duration_micros: u64,
    pub command: String,
    pub key_sample: String,
    pub client: String,
}

pub struct RedisLogLine {
    pub timestamp: String,
    pub level: String,
    pub message: String,
}

pub struct RedisSummary {
    pub headline: String,
    pub likely_causes: Vec<String>,
    pub recommended_next_steps: Vec<String>,
}

pub struct SshDiagnosticsInput {
    pub environment_id: String,
    pub host: Option<String>,
    pub command_preset: String,
    pub log_path: Option<String>,
    pub tail_lines: Option<u32>,
    pub custom_command: Option<String>,
}

pub struct SshHealthMetric {
    pub label: String,
    pub status: String,
    pub value: String,
    pub detail: String,
}

pub struct SshLogLine {
    pub timestamp: String,
    pub source: String,
    pub level: String,
    pub message: String,
}

pub struct SshDiagnosticsResponse {
    pub environment_id: String,
    pub adapter_mode: String,
    pub target_host: String,
    pub command_preset: String,
    pub executed_command: String,
    pub allowed_commands: Vec<String>,
    pub health_summary: Vec<SshHealthMetric>,
    pub log_lines: Vec<SshLogLine>,
    pub summary_headline: String,
    pub recommended_actions: Vec<String>,
}

pub struct SshKeyPairResult {
    pub profile: ConnectionProfile,
    pub private_key_path: String,
    pub public_key_path: String,
    pub public_key: String,
    pub created: bool,
}

pub struct AnalyzeTidbInput {
    pub environment_id: String,
    pub instance_name: Option<String>,
    pub time_range: String,
    pub slow_query_limit: Option<u32>,
}

pub struct TidbMetric {
    pub label: String,
    pub value: String,
    pub status: String,
    pub detail: String,
}

pub struct TidbSummary {
    pub headline: String,
    pub likely_causes: Vec<String>,
    pub recommended_next_steps: Vec<String>,
}

pub struct QwenConfig {
    pub base_url: String,
    pub base_path: String,
    pub app_key: String,
    pub app_secret: String,
    pub model: String,
    pub content_type: String,
}

pub struct QwenMessage {
    pub role: String,
    pub content: String,
}

pub struct QwenSuccess {
    pub content: String,
    pub raw_body: String,
}

pub struct DatabaseStatus {
    pub storage_path: String,
    pub database_ready: bool,
}

} // verus!
