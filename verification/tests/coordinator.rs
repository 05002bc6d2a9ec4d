use data_governance::config::{DataGovernanceConfig, DataGovernanceConfigError};
use data_governance::contract::{
    CreateExportError, CreateExportRequest, ExecuteRetentionError, ExecuteRetentionRequest,
    RetentionMode,
};
use data_governance::export::{existing_export_response, CreateExportRun, ExportStep, ExportSummary};
use data_governance::retention::{same_retention_intent, ExecuteRetentionRun, RetentionIdentity, RetentionStep};
use data_governance::text::valid_guard_decision;

fn config() -> DataGovernanceConfig {
    DataGovernanceConfig::new(
        "data_governance",
        "data-governance/database",
        vec!["privacy-service".to_owned()],
        vec!["privacy-admin".to_owned()],
        8,
        8,
        64,
        262_144,
        1_048_576,
    )
    .unwrap()
}

#[test]
fn configuration_rejects_unbounded_inline_artifacts() {
    let error = DataGovernanceConfig::new(
        "data_governance",
        "data-governance/database",
        vec!["privacy-service".to_owned()],
        vec!["privacy-admin".to_owned()],
        8,
        8,
        64,
        2_000_000,
        1_000_000,
    )
    .unwrap_err();
    assert_eq!(error, DataGovernanceConfigError::InvalidLimits);
}

#[test]
fn export_idempotency_is_scoped_to_the_exact_requester_instance() {
    let request = CreateExportRequest {
        export_id: "exp_1".to_owned(),
        scope_kind: "organization".to_owned(),
        scope_id: "org_acme".to_owned(),
        subject: "usr_1".to_owned(),
    };
    let existing = ExportSummary {
        requester_instance: "privacy-service".to_owned(),
        scope_kind: request.scope_kind.clone(),
        scope_id: request.scope_id.clone(),
        subject: request.subject.clone(),
        source_count: 1,
        item_count: 1,
        total_bytes: 1,
    };
    assert_eq!(
        existing_export_response(&existing, &request, "other-privacy-service").unwrap(),
        Err(CreateExportError::IdempotencyConflict)
    );
}

#[test]
fn retention_idempotency_is_scoped_to_the_exact_requester_instance() {
    let request = ExecuteRetentionRequest {
        action_id: "ret_1".to_owned(),
        scope_kind: "organization".to_owned(),
        scope_id: "org_acme".to_owned(),
        subject: "usr_1".to_owned(),
        mode: RetentionMode::Delete,
        reason: "account closure".to_owned(),
    };
    let identity = RetentionIdentity {
        requester_instance: "privacy-admin".to_owned(),
        scope_kind: request.scope_kind.clone(),
        scope_id: request.scope_id.clone(),
        subject: request.subject.clone(),
        mode: "delete".to_owned(),
        reason: request.reason.clone(),
        participant_instances: vec!["profile-store".to_owned()],
    };
    assert!(same_retention_intent(
        &identity,
        &request,
        "privacy-admin",
        "delete"
    ));
    assert!(!same_retention_intent(
        &identity,
        &request,
        "other-privacy-admin",
        "delete"
    ));
}

#[test]
fn retention_guard_decisions_fail_closed_on_ambiguous_evidence() {
    assert!(valid_guard_decision(true, "guard_1:decision_1", None));
    assert!(valid_guard_decision(
        false,
        "guard_1:decision_2",
        Some("active_legal_hold")
    ));
    assert!(!valid_guard_decision(false, "guard_1:decision_3", None));
    assert!(!valid_guard_decision(
        true,
        "guard_1:decision_4",
        Some("unexpected_reason")
    ));
}

#[test]
fn untrusted_export_caller_is_rejected_before_ports_or_storage() {
    let config = config();
    let caller = data_governance::plugin::allowed_caller(Some("untrusted"), &config.export_callers);
    let (_run, step) = CreateExportRun::start(
        caller,
        CreateExportRequest {
            export_id: "exp_1".to_owned(),
            scope_kind: "organization".to_owned(),
            scope_id: "org_acme".to_owned(),
            subject: "usr_1".to_owned(),
        },
        &config,
        Vec::new(),
    );
    assert_eq!(step, ExportStep::Reply(Err(CreateExportError::Forbidden)));
}

#[test]
fn malformed_retention_is_a_domain_error_before_ports_or_storage() {
    let config = config();
    let caller =
        data_governance::plugin::allowed_caller(Some("privacy-admin"), &config.retention_callers);
    let (_run, step) = ExecuteRetentionRun::start(
        caller,
        ExecuteRetentionRequest {
            action_id: "ret_1".to_owned(),
            scope_kind: "organization".to_owned(),
            scope_id: "org_acme".to_owned(),
            subject: "usr_1".to_owned(),
            mode: RetentionMode::Delete,
            reason: String::new(),
        },
        &config,
        Vec::new(),
        Vec::new(),
    );
    assert_eq!(step, RetentionStep::Reply(Err(ExecuteRetentionError::InvalidRequest)));
}
