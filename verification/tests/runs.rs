use data_governance::config::DataGovernanceConfig;
use data_governance::contract::{
    ApplyRetentionRequestMode, ApplyRetentionResponse, CheckRetentionRequestMode,
    CheckRetentionResponse, CollectExportResponse, CollectExportResponseItemsItem,
    CreateExportError, CreateExportRequest, CreateExportResponse, ExecuteRetentionError,
    ExecuteRetentionRequest, ExecuteRetentionResponse, ReadExportResponseItemsItem,
    RetentionMode, RetentionParticipantStatus, RetentionStatus,
};
use data_governance::export::{
    accept_source_items, existing_export_response, CreateExportRun, ExportBounds, ExportEvent,
    ExportRecord, ExportStep, ExportSummary,
};
use data_governance::fault::{CapabilityRole, Fault};
use data_governance::retention::{
    parse_retention_mode, retention_counts, retention_mode_name, retention_response,
    ExecuteRetentionRun, ParticipantOutcome, RetentionEvent, RetentionIdentity, RetentionStep,
    StoredResult,
};

fn strings(values: &[&str]) -> Vec<String> {
    values.iter().map(|value| (*value).to_owned()).collect()
}

fn config(max_items: usize, max_item_bytes: usize, max_total_bytes: usize) -> DataGovernanceConfig {
    DataGovernanceConfig::new(
        "data_governance",
        "data-governance/database",
        strings(&["privacy-service"]),
        strings(&["privacy-admin"]),
        2,
        2,
        max_items,
        max_item_bytes,
        max_total_bytes,
    )
    .unwrap()
}

fn export_request() -> CreateExportRequest {
    CreateExportRequest {
        export_id: "exp_1".to_owned(),
        scope_kind: "organization".to_owned(),
        scope_id: "org_acme".to_owned(),
        subject: "usr_1".to_owned(),
    }
}

fn item(name: &str, media_type: &str, payload: &str) -> CollectExportResponseItemsItem {
    CollectExportResponseItemsItem {
        item_name: name.to_owned(),
        media_type: media_type.to_owned(),
        payload: payload.to_owned(),
    }
}

fn collected(items: Vec<CollectExportResponseItemsItem>) -> ExportEvent {
    ExportEvent::Collected(CollectExportResponse { items })
}

fn summary(owner: &str, total_bytes: i64) -> ExportSummary {
    ExportSummary {
        requester_instance: owner.to_owned(),
        scope_kind: "organization".to_owned(),
        scope_id: "org_acme".to_owned(),
        subject: "usr_1".to_owned(),
        source_count: 2,
        item_count: 3,
        total_bytes,
    }
}

fn started_export(sources: &[&str], config: &DataGovernanceConfig) -> CreateExportRun {
    let (run, step) = CreateExportRun::start(
        Some("privacy-service".to_owned()),
        export_request(),
        config,
        strings(sources),
    );
    assert_eq!(step, ExportStep::LoadSummary);
    run
}

#[test]
fn a_fresh_export_collects_every_source_then_stores_within_bounds() {
    let config = config(8, 16, 64);
    let mut run = started_export(&["profile-source", "billing-source"], &config);
    assert_eq!(run.step(ExportEvent::Summary(None)), ExportStep::Collect(0));
    let request = run.collect_request();
    assert_eq!(request.export_id, "exp_1");
    assert_eq!(request.subject, "usr_1");
    assert_eq!(
        run.step(collected(vec![item("profile.json", "application/json", "{}"), item("avatar.txt", "text/plain", "abc")])),
        ExportStep::Collect(1)
    );
    assert_eq!(run.step(collected(vec![item("profile.json", "application/json", "12345")])), ExportStep::Serialize);
    assert_eq!(
        run.items(),
        &vec![
            ReadExportResponseItemsItem { provider_instance: "profile-source".to_owned(), item_name: "profile.json".to_owned(), media_type: "application/json".to_owned(), payload: "{}".to_owned() },
            ReadExportResponseItemsItem { provider_instance: "profile-source".to_owned(), item_name: "avatar.txt".to_owned(), media_type: "text/plain".to_owned(), payload: "abc".to_owned() },
            ReadExportResponseItemsItem { provider_instance: "billing-source".to_owned(), item_name: "profile.json".to_owned(), media_type: "application/json".to_owned(), payload: "12345".to_owned() },
        ]
    );
    assert_eq!(
        run.step(ExportEvent::Serialized(64)),
        ExportStep::Store(ExportRecord { source_count: 2, item_count: 3, total_bytes: 10 })
    );
    assert_eq!(run.caller(), "privacy-service");
    assert_eq!(
        run.step(ExportEvent::Stored(true)),
        ExportStep::Reply(Ok(CreateExportResponse { created: true, source_count: 2, item_count: 3, total_bytes: "10".to_owned() }))
    );
}

#[test]
fn the_serialized_envelope_counts_against_the_total_bound() {
    let config = config(8, 16, 64);
    let mut run = started_export(&["profile-source"], &config);
    run.step(ExportEvent::Summary(None));
    assert_eq!(run.step(collected(vec![item("p", "text/plain", "x")])), ExportStep::Serialize);
    assert_eq!(run.step(ExportEvent::Serialized(65)), ExportStep::Reply(Err(CreateExportError::ArtifactTooLarge)));
}

#[test]
fn a_same_owner_retry_returns_the_stored_export() {
    let config = config(8, 16, 64);
    let mut run = started_export(&["profile-source"], &config);
    assert_eq!(
        run.step(ExportEvent::Summary(Some(summary("privacy-service", 1_048_576)))),
        ExportStep::Reply(Ok(CreateExportResponse { created: false, source_count: 2, item_count: 3, total_bytes: "1048576".to_owned() }))
    );
    let mut other = started_export(&["profile-source"], &config);
    assert_eq!(
        other.step(ExportEvent::Summary(Some(summary("other-privacy-service", 1)))),
        ExportStep::Reply(Err(CreateExportError::IdempotencyConflict))
    );
}

#[test]
fn a_concurrent_winner_answers_a_lost_insert() {
    let config = config(8, 16, 64);
    let mut run = started_export(&["profile-source"], &config);
    run.step(ExportEvent::Summary(None));
    run.step(collected(Vec::new()));
    assert_eq!(run.step(ExportEvent::Serialized(2)), ExportStep::Store(ExportRecord { source_count: 1, item_count: 0, total_bytes: 0 }));
    assert_eq!(run.step(ExportEvent::Stored(false)), ExportStep::LoadSummary);
    assert_eq!(
        run.step(ExportEvent::Summary(Some(summary("other-privacy-service", 5)))),
        ExportStep::Reply(Err(CreateExportError::IdempotencyConflict))
    );

    let mut vanished = started_export(&["profile-source"], &config);
    vanished.step(ExportEvent::Summary(None));
    vanished.step(collected(Vec::new()));
    vanished.step(ExportEvent::Serialized(2));
    vanished.step(ExportEvent::Stored(false));
    assert_eq!(vanished.step(ExportEvent::Summary(None)), ExportStep::Fail(Fault::ConcurrentExportDisappeared));
}

#[test]
fn export_failures_before_and_during_collection() {
    let config = config(8, 16, 64);
    let (_, step) = CreateExportRun::start(None, export_request(), &config, strings(&["s"]));
    assert_eq!(step, ExportStep::Reply(Err(CreateExportError::Forbidden)));
    let mut bad = export_request();
    bad.scope_kind = ".organization".to_owned();
    let (_, step) = CreateExportRun::start(Some("privacy-service".to_owned()), bad, &config, strings(&["s"]));
    assert_eq!(step, ExportStep::Reply(Err(CreateExportError::InvalidRequest)));

    let mut none = started_export(&[], &config);
    assert_eq!(none.step(ExportEvent::Summary(None)), ExportStep::Fail(Fault::SourceCardinality));
    let mut many = started_export(&["a", "b", "c"], &config);
    assert_eq!(many.step(ExportEvent::Summary(None)), ExportStep::Fail(Fault::SourceCardinality));
    let mut bad_key = started_export(&["a", "bad key"], &config);
    bad_key.step(ExportEvent::Summary(None));
    assert_eq!(bad_key.step(collected(Vec::new())), ExportStep::Fail(Fault::SourceInstanceKey));
    let mut rejected = started_export(&["a"], &config);
    rejected.step(ExportEvent::Summary(None));
    assert_eq!(rejected.step(ExportEvent::SourceRejected), ExportStep::Reply(Err(CreateExportError::SourceRejected)));
}

#[test]
fn contributed_items_break_the_protocol_or_a_bound() {
    let bounds = ExportBounds { max_items: 2, max_item_bytes: 4, max_total_bytes: 6 };
    let violation = Err(Fault::ProtocolViolation(CapabilityRole::DataExportSource));
    let too_large = Ok(Err(CreateExportError::ArtifactTooLarge));
    let provider = "profile-source".to_owned();
    let run = |incoming: Vec<CollectExportResponseItemsItem>| {
        let mut items = Vec::new();
        let mut total = 0_usize;
        let outcome = accept_source_items(&mut items, &mut total, &provider, &incoming, bounds);
        (outcome, items.len(), total)
    };
    assert_eq!(run(vec![item("/abs", "text/plain", "x")]).0, violation);
    assert_eq!(run(vec![item("a", "text", "x")]).0, violation);
    assert_eq!(run(vec![item("a", "text/plain", "x\0y")]).0, violation);
    assert_eq!(run(vec![item("a", "text/plain", "x"), item("a", "text/csv", "y")]).0, violation);
    assert_eq!(run(vec![item("a", "text/plain", "12345")]).0, too_large);
    assert_eq!(run(vec![item("a", "text/plain", "1"), item("b", "text/plain", "2"), item("c", "text/plain", "3")]).0, too_large);
    assert_eq!(run(vec![item("a", "text/plain", "1234"), item("b", "text/plain", "123")]).0, too_large);
    assert_eq!(run(vec![item("a", "text/plain", "1234"), item("b", "text/plain", "12")]), (Ok(Ok(())), 2, 6));
    // payloads are measured in UTF-8 bytes
    assert_eq!(run(vec![item("a", "text/plain", "\u{20ac}\u{20ac}")]).0, too_large);
}

#[test]
fn an_existing_export_is_reported_with_its_counts() {
    let response = existing_export_response(&summary("privacy-service", 42), &export_request(), "privacy-service").unwrap();
    assert_eq!(response, Ok(CreateExportResponse { created: false, source_count: 2, item_count: 3, total_bytes: "42".to_owned() }));
    let mut other_scope = summary("privacy-service", 42);
    other_scope.scope_id = "org_other".to_owned();
    assert_eq!(
        existing_export_response(&other_scope, &export_request(), "privacy-service").unwrap(),
        Err(CreateExportError::IdempotencyConflict)
    );
}

fn retention_request(reason: &str) -> ExecuteRetentionRequest {
    ExecuteRetentionRequest {
        action_id: "ret_1".to_owned(),
        scope_kind: "organization".to_owned(),
        scope_id: "org_acme".to_owned(),
        subject: "usr_1".to_owned(),
        mode: RetentionMode::Anonymize,
        reason: reason.to_owned(),
    }
}

fn identity(owner: &str, participants: &[&str]) -> RetentionIdentity {
    RetentionIdentity {
        requester_instance: owner.to_owned(),
        scope_kind: "organization".to_owned(),
        scope_id: "org_acme".to_owned(),
        subject: "usr_1".to_owned(),
        mode: "anonymize".to_owned(),
        reason: "account closure".to_owned(),
        participant_instances: strings(participants),
    }
}

fn row(provider: &str, status: &str, receipt: Option<&str>) -> StoredResult {
    StoredResult {
        provider_instance: provider.to_owned(),
        status: status.to_owned(),
        receipt: receipt.map(ToOwned::to_owned),
    }
}

fn allow(decision: &str) -> RetentionEvent {
    RetentionEvent::GuardDecision(CheckRetentionResponse { allowed: true, decision_id: decision.to_owned(), reason_code: None })
}

fn started_retention(guards: &[&str], participants: &[&str]) -> (ExecuteRetentionRun, RetentionStep) {
    let config = config(8, 16, 64);
    ExecuteRetentionRun::start(
        Some("privacy-admin".to_owned()),
        retention_request("  account closure "),
        &config,
        strings(guards),
        strings(participants),
    )
}

#[test]
fn a_resumed_retention_skips_completed_participants() {
    let (mut run, step) = started_retention(&["legal-hold"], &["profile-store", "billing-store"]);
    assert_eq!(step, RetentionStep::CheckGuard(0));
    let check = run.check_request();
    assert_eq!(check.reason, "account closure");
    assert_eq!(check.mode, CheckRetentionRequestMode::Anonymize);
    assert_eq!(run.step(allow("g:1")), RetentionStep::Prepare);
    assert_eq!(run.step(RetentionEvent::Prepared), RetentionStep::Record);
    assert_eq!(run.mode_name(), "anonymize");
    assert_eq!(run.reason(), "account closure");
    assert_eq!(
        run.step(RetentionEvent::Identity(Some(identity("privacy-admin", &["profile-store", "billing-store"])))),
        RetentionStep::LoadCompleted
    );
    assert_eq!(run.step(RetentionEvent::Completed(strings(&["profile-store"]))), RetentionStep::Apply(1));
    let apply = run.apply_request();
    assert_eq!(apply.mode, ApplyRetentionRequestMode::Anonymize);
    assert_eq!(apply.action_id, "ret_1");
    assert_eq!(
        run.step(RetentionEvent::Applied(ApplyRetentionResponse { receipt: " receipt-2 ".to_owned() })),
        RetentionStep::StoreResult(ParticipantOutcome { participant: 1, completed: true, receipt: Some("receipt-2".to_owned()) })
    );
    assert_eq!(run.step(RetentionEvent::Stored), RetentionStep::LoadResponse);
    let rows = vec![row("profile-store", "completed", Some("receipt-1")), row("billing-store", "completed", Some("receipt-2"))];
    assert_eq!(
        run.step(RetentionEvent::Loaded(Some((identity("privacy-admin", &["profile-store", "billing-store"]), rows)))),
        RetentionStep::Reply(Ok(ExecuteRetentionResponse { status: RetentionStatus::Completed, completed_count: 2, rejected_count: 0, pending_count: 0 }))
    );
}

#[test]
fn participants_outside_the_frozen_set_are_not_asked() {
    let (mut run, step) = started_retention(&[], &["new-store", "profile-store"]);
    assert_eq!(step, RetentionStep::Prepare);
    run.step(RetentionEvent::Prepared);
    run.step(RetentionEvent::Identity(Some(identity("privacy-admin", &["profile-store"]))));
    assert_eq!(run.step(RetentionEvent::Completed(Vec::new())), RetentionStep::Apply(1));
    assert_eq!(
        run.step(RetentionEvent::ParticipantRejected),
        RetentionStep::StoreResult(ParticipantOutcome { participant: 1, completed: false, receipt: None })
    );
    assert_eq!(run.step(RetentionEvent::Stored), RetentionStep::LoadResponse);
    assert_eq!(
        run.step(RetentionEvent::Loaded(Some((identity("privacy-admin", &["profile-store"]), vec![row("profile-store", "rejected", None)])))),
        RetentionStep::Reply(Ok(ExecuteRetentionResponse { status: RetentionStatus::Partial, completed_count: 0, rejected_count: 1, pending_count: 0 }))
    );
}

#[test]
fn guards_fail_closed() {
    let deny = RetentionEvent::GuardDecision(CheckRetentionResponse { allowed: false, decision_id: "g:2".to_owned(), reason_code: Some("active_legal_hold".to_owned()) });
    let (mut run, _) = started_retention(&["legal-hold", "second"], &["p"]);
    assert_eq!(run.step(allow("g:1")), RetentionStep::CheckGuard(1));
    assert_eq!(run.step(deny), RetentionStep::Reply(Err(ExecuteRetentionError::BlockedByGuard)));

    let ambiguous = RetentionEvent::GuardDecision(CheckRetentionResponse { allowed: false, decision_id: "g:3".to_owned(), reason_code: None });
    let (mut run, _) = started_retention(&["legal-hold"], &["p"]);
    assert_eq!(run.step(ambiguous), RetentionStep::Fail(Fault::ProtocolViolation(CapabilityRole::RetentionGuard)));

    let (mut run, _) = started_retention(&["a", "b"], &["p"]);
    run.step(allow("g:1"));
    assert_eq!(run.step(RetentionEvent::GuardRejected), RetentionStep::Fail(Fault::GuardRejectedPreflight(1)));
}

#[test]
fn retention_failures_before_guards_and_storage() {
    let config = config(8, 16, 64);
    let start = |caller: Option<&str>, reason: &str, guards: &[&str], participants: &[&str]| {
        ExecuteRetentionRun::start(caller.map(ToOwned::to_owned), retention_request(reason), &config, strings(guards), strings(participants)).1
    };
    assert_eq!(start(None, "r", &[], &["p"]), RetentionStep::Reply(Err(ExecuteRetentionError::Forbidden)));
    assert_eq!(start(Some("c"), "bad\treason", &[], &["p"]), RetentionStep::Reply(Err(ExecuteRetentionError::InvalidRequest)));
    assert_eq!(start(Some("c"), &"r".repeat(513), &[], &["p"]), RetentionStep::Reply(Err(ExecuteRetentionError::InvalidRequest)));
    assert_eq!(start(Some("c"), "r", &[], &[]), RetentionStep::Fail(Fault::ParticipantCardinality));
    assert_eq!(start(Some("c"), "r", &[], &["a", "b", "c"]), RetentionStep::Fail(Fault::ParticipantCardinality));
    let seventeen = ["g"; 17];
    assert_eq!(start(Some("c"), "r", &seventeen, &["p"]), RetentionStep::Fail(Fault::GuardCardinality));
    assert_eq!(start(Some("c"), "r", &["g", "g"], &["p"]), RetentionStep::Fail(Fault::GuardInstanceKeys));

    let (mut run, _) = started_retention(&[], &["p", "p"]);
    assert_eq!(run.step(RetentionEvent::Prepared), RetentionStep::Fail(Fault::ParticipantInstanceKeys));
    let (mut run, _) = started_retention(&[], &["p"]);
    run.step(RetentionEvent::Prepared);
    assert_eq!(run.step(RetentionEvent::Identity(None)), RetentionStep::Fail(Fault::RetentionActionDisappeared));
    let (mut run, _) = started_retention(&[], &["p"]);
    run.step(RetentionEvent::Prepared);
    assert_eq!(
        run.step(RetentionEvent::Identity(Some(identity("other-privacy-admin", &["p"])))),
        RetentionStep::Reply(Err(ExecuteRetentionError::IdempotencyConflict))
    );
    let (mut run, _) = started_retention(&[], &["p"]);
    run.step(RetentionEvent::Prepared);
    run.step(RetentionEvent::Identity(Some(identity("privacy-admin", &["p"]))));
    run.step(RetentionEvent::Completed(Vec::new()));
    assert_eq!(
        run.step(RetentionEvent::Applied(ApplyRetentionResponse { receipt: "   ".to_owned() })),
        RetentionStep::Fail(Fault::ProtocolViolation(CapabilityRole::RetentionParticipant))
    );
    let (mut run, _) = started_retention(&[], &["p"]);
    run.step(RetentionEvent::Prepared);
    run.step(RetentionEvent::Identity(Some(identity("privacy-admin", &["p"]))));
    run.step(RetentionEvent::Completed(strings(&["p"])));
    assert_eq!(run.step(RetentionEvent::Loaded(None)), RetentionStep::Fail(Fault::RetentionActionDisappearedAfterExecution));
}

#[test]
fn a_report_takes_each_participants_last_stored_row() {
    let report = retention_response(
        identity("privacy-admin", &["a", "b", "c", "a"]),
        vec![row("a", "rejected", None), row("b", "completed", Some("rb")), row("a", "completed", Some("ra")), row("zz", "completed", None)],
    )
    .unwrap();
    let statuses: Vec<_> = report.results.iter().map(|result| (result.provider_instance.clone(), result.status, result.receipt.0.clone())).collect();
    assert_eq!(
        statuses,
        vec![
            ("a".to_owned(), RetentionParticipantStatus::Completed, Some("ra".to_owned())),
            ("b".to_owned(), RetentionParticipantStatus::Completed, Some("rb".to_owned())),
            ("c".to_owned(), RetentionParticipantStatus::Pending, None),
            ("a".to_owned(), RetentionParticipantStatus::Pending, None),
        ]
    );
    assert_eq!(report.status, RetentionStatus::InProgress);
    assert_eq!(report.mode, RetentionMode::Anonymize);
    assert_eq!(report.reason, "account closure");
    assert_eq!(retention_counts(&report), (2, 0, 2));
}

#[test]
fn report_status_agrees_with_counts() {
    let done = retention_response(identity("x", &["a", "b"]), vec![row("a", "completed", None), row("b", "completed", Some("r"))]).unwrap();
    assert_eq!((done.status, retention_counts(&done)), (RetentionStatus::Completed, (2, 0, 0)));
    let partial = retention_response(identity("x", &["a", "b"]), vec![row("a", "completed", None), row("b", "rejected", Some("ignored"))]).unwrap();
    assert_eq!((partial.status, retention_counts(&partial)), (RetentionStatus::Partial, (1, 1, 0)));
    assert_eq!(partial.results[1].receipt.0, None);
    let empty = retention_response(identity("x", &[]), Vec::new()).unwrap();
    assert_eq!((empty.status, retention_counts(&empty)), (RetentionStatus::Completed, (0, 0, 0)));
    let mut bad_mode = identity("x", &["a"]);
    bad_mode.mode = "erase".to_owned();
    assert_eq!(retention_response(bad_mode, Vec::new()), Err(Fault::InvalidStoredMode));
}

#[test]
fn mode_names_round_trip() {
    for mode in [RetentionMode::Delete, RetentionMode::Anonymize] {
        assert_eq!(parse_retention_mode(retention_mode_name(&mode)), Ok(mode));
    }
    assert_eq!(retention_mode_name(&RetentionMode::Delete), "delete");
    assert_eq!(parse_retention_mode("Delete"), Err(Fault::InvalidStoredMode));
}
