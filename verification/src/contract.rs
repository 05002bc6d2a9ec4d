//! Request, response and error types of the five data-governance
//! capabilities: export source, data export, data retention, retention guard
//! and retention participant.

use vstd::prelude::*;

verus! {

// ---- lenso.data-export-source@1 ----

/// What the coordinator asks one export source to contribute.
#[derive(Clone, Debug, PartialEq, Eq)]
pub struct CollectExportRequest {
    pub export_id: String,
    pub scope_kind: String,
    pub scope_id: String,
    pub subject: String,
}

/// One item an export source contributes.
#[derive(Clone, Debug, PartialEq, Eq)]
pub struct CollectExportResponseItemsItem {
    pub item_name: String,
    pub media_type: String,
    /// Sensitive.
    pub payload: String,
}

/// Everything one export source contributes.
#[derive(Clone, Debug, PartialEq, Eq)]
pub struct CollectExportResponse {
    pub items: Vec<CollectExportResponseItemsItem>,
}

/// Domain errors of an export source.
#[derive(Clone, Copy, Debug, PartialEq, Eq, Structural)]
pub enum CollectExportError {
    InvalidRequest,
    Forbidden,
}

// ---- lenso.data-export@1 ----

/// A caller's request to create an export under a stable ID.
#[derive(Clone, Debug, PartialEq, Eq)]
pub struct CreateExportRequest {
    pub export_id: String,
    pub scope_kind: String,
    pub scope_id: String,
    pub subject: String,
}

/// The outcome of creating (or finding again) an export.
#[derive(Clone, Debug, PartialEq, Eq)]
pub struct CreateExportResponse {
    pub created: bool,
    pub source_count: i64,
    pub item_count: i64,
    /// Non-negative base-10 byte count encoded as a portable string.
    pub total_bytes: String,
}

/// Domain errors of export creation.
#[derive(Clone, Copy, Debug, PartialEq, Eq, Structural)]
pub enum CreateExportError {
    InvalidRequest,
    IdempotencyConflict,
    SourceRejected,
    ArtifactTooLarge,
    Forbidden,
}

/// A request to read one export back.
#[derive(Clone, Debug, PartialEq, Eq)]
pub struct ReadExportRequest {
    pub export_id: String,
}

/// One stored export item, with the source instance that contributed it.
#[derive(Clone, Debug, PartialEq, Eq)]
pub struct ReadExportResponseItemsItem {
    pub provider_instance: String,
    pub item_name: String,
    pub media_type: String,
    /// Sensitive.
    pub payload: String,
}

/// A stored export.
#[derive(Clone, Debug, PartialEq, Eq)]
pub struct ReadExportResponse {
    pub scope_kind: String,
    pub scope_id: String,
    pub subject: String,
    pub items: Vec<ReadExportResponseItemsItem>,
    /// RFC 3339 date-time.
    pub created_at: String,
}

/// Domain errors of reading an export.
#[derive(Clone, Copy, Debug, PartialEq, Eq, Structural)]
pub enum ReadExportError {
    InvalidRequest,
    NotFound,
    Forbidden,
}

/// A request to purge one export.
#[derive(Clone, Debug, PartialEq, Eq)]
pub struct PurgeExportRequest {
    pub export_id: String,
}

/// Whether a purge removed a stored export.
#[derive(Clone, Copy, Debug, PartialEq, Eq, Structural)]
pub struct PurgeExportResponse {
    pub changed: bool,
}

/// Domain errors of purging an export.
#[derive(Clone, Copy, Debug, PartialEq, Eq, Structural)]
pub enum PurgeExportError {
    InvalidRequest,
    Forbidden,
}

// ---- lenso.data-retention@1 ----

/// A value that is present or JSON `null`.
#[derive(Clone, Debug, PartialEq, Eq)]
pub struct Nullable<T>(pub Option<T>);

/// What a retention action does to the subject's data.
#[derive(Clone, Copy, Debug, PartialEq, Eq, Structural)]
pub enum RetentionMode {
    Delete,
    Anonymize,
}

/// Overall state of a retention action.
#[derive(Clone, Copy, Debug, PartialEq, Eq, Structural)]
pub enum RetentionStatus {
    InProgress,
    Completed,
    Partial,
}

/// State of one participant within a retention action.
#[derive(Clone, Copy, Debug, PartialEq, Eq, Structural)]
pub enum RetentionParticipantStatus {
    Pending,
    Completed,
    Rejected,
}

/// A caller's request to run a retention action under a stable ID.
#[derive(Clone, Debug, PartialEq, Eq)]
pub struct ExecuteRetentionRequest {
    pub action_id: String,
    pub scope_kind: String,
    pub scope_id: String,
    pub subject: String,
    pub mode: RetentionMode,
    pub reason: String,
}

/// Where a retention action stands after one execution.
#[derive(Clone, Copy, Debug, PartialEq, Eq, Structural)]
pub struct ExecuteRetentionResponse {
    pub status: RetentionStatus,
    pub completed_count: i64,
    pub rejected_count: i64,
    pub pending_count: i64,
}

/// Domain errors of executing a retention action.
#[derive(Clone, Copy, Debug, PartialEq, Eq, Structural)]
pub enum ExecuteRetentionError {
    InvalidRequest,
    IdempotencyConflict,
    Forbidden,
    BlockedByGuard,
}

/// A request to read one retention action back.
#[derive(Clone, Debug, PartialEq, Eq)]
pub struct ReadRetentionRequest {
    pub action_id: String,
}

/// The recorded outcome for one participant.
#[derive(Clone, Debug, PartialEq, Eq)]
pub struct ReadRetentionResponseResultsItem {
    pub provider_instance: String,
    pub status: RetentionParticipantStatus,
    pub receipt: Nullable<String>,
}

/// A stored retention action and its per-participant outcomes.
#[derive(Clone, Debug, PartialEq, Eq)]
pub struct ReadRetentionResponse {
    pub scope_kind: String,
    pub scope_id: String,
    pub subject: String,
    pub mode: RetentionMode,
    pub reason: String,
    pub status: RetentionStatus,
    pub results: Vec<ReadRetentionResponseResultsItem>,
}

/// Domain errors of reading a retention action.
#[derive(Clone, Copy, Debug, PartialEq, Eq, Structural)]
pub enum ReadRetentionError {
    InvalidRequest,
    NotFound,
    Forbidden,
}

// ---- lenso.retention-guard@1 ----

/// Retention mode as a guard sees it.
#[derive(Clone, Copy, Debug, PartialEq, Eq, Structural)]
pub enum CheckRetentionRequestMode {
    Delete,
    Anonymize,
}

/// The exact action a guard is asked to allow or deny.
#[derive(Clone, Debug, PartialEq, Eq)]
pub struct CheckRetentionRequest {
    pub action_id: String,
    pub scope_kind: String,
    pub scope_id: String,
    pub subject: String,
    pub mode: CheckRetentionRequestMode,
    pub reason: String,
}

/// A guard's decision.
#[derive(Clone, Debug, PartialEq, Eq)]
pub struct CheckRetentionResponse {
    pub allowed: bool,
    pub decision_id: String,
    pub reason_code: Option<String>,
}

/// Domain errors of a guard.
#[derive(Clone, Copy, Debug, PartialEq, Eq, Structural)]
pub enum CheckRetentionError {
    InvalidRequest,
    Forbidden,
    UnsupportedMode,
}

// ---- lenso.retention-participant@1 ----

/// Retention mode as a participant sees it.
#[derive(Clone, Copy, Debug, PartialEq, Eq, Structural)]
pub enum ApplyRetentionRequestMode {
    Delete,
    Anonymize,
}

/// The exact action a participant is asked to apply.
#[derive(Clone, Debug, PartialEq, Eq)]
pub struct ApplyRetentionRequest {
    pub action_id: String,
    pub scope_kind: String,
    pub scope_id: String,
    pub subject: String,
    pub mode: ApplyRetentionRequestMode,
    pub reason: String,
}

/// A participant's durable receipt.
#[derive(Clone, Debug, PartialEq, Eq)]
pub struct ApplyRetentionResponse {
    pub receipt: String,
}

/// Domain errors of a participant.
#[derive(Clone, Copy, Debug, PartialEq, Eq, Structural)]
pub enum ApplyRetentionError {
    InvalidRequest,
    Forbidden,
    UnsupportedMode,
}

} // verus!
