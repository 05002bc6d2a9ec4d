//! Retention: the idempotent action identity, the per-participant outcomes
//! and their summary, and the guarded, resumable execution of an action.

use vstd::prelude::*;

use vstd::string::StringSliceAdditionalSpecFns;

use crate::config::DataGovernanceConfig;
use crate::contract::{
    ApplyRetentionRequest, ApplyRetentionRequestMode, ApplyRetentionResponse,
    CheckRetentionRequest, CheckRetentionRequestMode, CheckRetentionResponse,
    ExecuteRetentionError, ExecuteRetentionRequest, ExecuteRetentionResponse, Nullable,
    ReadRetentionResponse, ReadRetentionResponseResultsItem, RetentionMode,
    RetentionParticipantStatus, RetentionStatus,
};
use crate::fault::{CapabilityRole, Fault};
use crate::plugin::{contains_string, keys_ok, listed, opt_string_view, valid_instance_keys};
use crate::text::{
    name_ok, request_identity_ok, spec_valid_guard_decision, text_ok, trim, trimmed, valid_guard_decision,
    valid_request_identity, valid_text,
};
use vstd::utf8::encode_utf8;

verus! {

/// The stored name of a retention mode.
pub open spec fn mode_name(mode: RetentionMode) -> Seq<char> {
    match mode {
        RetentionMode::Delete => "delete"@,
        RetentionMode::Anonymize => "anonymize"@,
    }
}

/// The stored name of a retention mode.
pub fn retention_mode_name(mode: &RetentionMode) -> (r: &'static str)
    ensures
        r@ == mode_name(*mode),
{
    match mode {
        RetentionMode::Delete => "delete",
        RetentionMode::Anonymize => "anonymize",
    }
}

/// The retention mode a stored name denotes.
pub open spec fn parsed_mode(value: Seq<char>) -> Result<RetentionMode, Fault> {
    if value == "delete"@ {
        Ok(RetentionMode::Delete)
    } else if value == "anonymize"@ {
        Ok(RetentionMode::Anonymize)
    } else {
        Err(Fault::InvalidStoredMode)
    }
}

/// Reads a stored retention mode back.
pub fn parse_retention_mode(value: &str) -> (r: Result<RetentionMode, Fault>)
    ensures
        r == parsed_mode(value@),
{
    let owned = value.to_owned();
    if owned == "delete".to_owned() {
        Ok(RetentionMode::Delete)
    } else if owned == "anonymize".to_owned() {
        Ok(RetentionMode::Anonymize)
    } else {
        Err(Fault::InvalidStoredMode)
    }
}

/// Each mode's stored name reads back as that mode, and distinct modes have
/// distinct names.
pub proof fn lemma_mode_name_round_trip(mode: RetentionMode)
    ensures
        parsed_mode(mode_name(mode)) == Ok::<RetentionMode, Fault>(mode),
{
    reveal_strlit("delete");
    reveal_strlit("anonymize");
    assert("delete"@ != "anonymize"@) by {
        assert("delete"@.len() != "anonymize"@.len());
    }
}

/// What is stored under a retention action ID.
#[derive(Clone, Debug, PartialEq, Eq)]
pub struct RetentionIdentity {
    pub requester_instance: String,
    pub scope_kind: String,
    pub scope_id: String,
    pub subject: String,
    pub mode: String,
    pub reason: String,
    pub participant_instances: Vec<String>,
}

/// The stored action has this requester, the request's scope, subject and
/// mode, and the request's reason once trimmed.
pub open spec fn same_intent(
    identity: RetentionIdentity,
    request: ExecuteRetentionRequest,
    requester: Seq<char>,
    mode: Seq<char>,
) -> bool {
    &&& identity.requester_instance@ == requester
    &&& identity.scope_kind@ == request.scope_kind@
    &&& identity.scope_id@ == request.scope_id@
    &&& identity.subject@ == request.subject@
    &&& identity.mode@ == mode
    &&& identity.reason@ == trimmed(request.reason@)
}

/// Whether a stored retention action is the same intent as this request from
/// this requester.
pub fn same_retention_intent(
    identity: &RetentionIdentity,
    request: &ExecuteRetentionRequest,
    requester_instance: &str,
    mode: &str,
) -> (r: bool)
    ensures
        r == same_intent(*identity, *request, requester_instance@, mode@),
{
    identity.requester_instance == requester_instance.to_owned() && identity.scope_kind
        == request.scope_kind && identity.scope_id == request.scope_id && identity.subject
        == request.subject && identity.mode == mode.to_owned() && identity.reason == trim(
        request.reason.as_str(),
    )
}

/// One stored participant outcome row.
#[derive(Clone, Debug, PartialEq, Eq)]
pub struct StoredResult {
    pub provider_instance: String,
    pub status: String,
    pub receipt: Option<String>,
}

/// The index of the last stored row for `provider` among the first `n` rows, or -1.
pub open spec fn last_row(rows: Seq<StoredResult>, provider: Seq<char>, n: int) -> int
    decreases n,
{
    if n <= 0 {
        -1
    } else if rows[n - 1].provider_instance@ == provider {
        n - 1
    } else {
        last_row(rows, provider, n - 1)
    }
}

/// A participant's reported (status, receipt): the last stored row for it
/// decides, once per distinct instance; `completed` keeps its receipt, any
/// other stored status is a rejection, and no row means pending.
pub open spec fn participant_outcome(
    participants: Seq<String>,
    rows: Seq<StoredResult>,
    k: int,
) -> (RetentionParticipantStatus, Option<Seq<char>>) {
    let provider = participants[k]@;
    let row = last_row(rows, provider, rows.len() as int);
    if (exists|j: int| 0 <= j < k && #[trigger] participants[j]@ == provider) || row < 0 {
        (RetentionParticipantStatus::Pending, None)
    } else if rows[row].status@ == "completed"@ {
        (RetentionParticipantStatus::Completed, opt_string_view(rows[row].receipt))
    } else {
        (RetentionParticipantStatus::Rejected, None)
    }
}

/// The view of a reported participant outcome.
pub open spec fn result_view(item: ReadRetentionResponseResultsItem) -> (
    Seq<char>,
    RetentionParticipantStatus,
    Option<Seq<char>>,
) {
    (item.provider_instance@, item.status, opt_string_view(item.receipt.0))
}

/// How many results have this status.
pub open spec fn count_status(
    results: Seq<ReadRetentionResponseResultsItem>,
    status: RetentionParticipantStatus,
) -> nat
    decreases results.len(),
{
    if results.len() == 0 {
        0
    } else {
        count_status(results.drop_last(), status) + if results.last().status == status {
            1nat
        } else {
            0nat
        }
    }
}

/// The overall status: in progress while some participant is pending,
/// partial when none is pending but some rejected, completed otherwise.
pub open spec fn overall_status(completed: nat, rejected: nat, total: nat) -> RetentionStatus {
    if completed + rejected < total {
        RetentionStatus::InProgress
    } else if rejected > 0 {
        RetentionStatus::Partial
    } else {
        RetentionStatus::Completed
    }
}

/// `response` reports the stored action `identity` with the outcomes `rows`.
pub open spec fn reports(
    response: ReadRetentionResponse,
    identity: RetentionIdentity,
    rows: Seq<StoredResult>,
) -> bool {
    let parts = identity.participant_instances@;
    &&& parsed_mode(identity.mode@) == Ok::<RetentionMode, Fault>(response.mode)
    &&& response.scope_kind@ == identity.scope_kind@
    &&& response.scope_id@ == identity.scope_id@
    &&& response.subject@ == identity.subject@
    &&& response.reason@ == identity.reason@
    &&& response.results@.len() == parts.len()
    &&& forall|k: int|
        0 <= k < parts.len() ==> result_view(#[trigger] response.results@[k]) == (
            parts[k]@,
            participant_outcome(parts, rows, k).0,
            participant_outcome(parts, rows, k).1,
        )
    &&& response.status == overall_status(
        count_status(response.results@, RetentionParticipantStatus::Completed),
        count_status(response.results@, RetentionParticipantStatus::Rejected),
        parts.len(),
    )
}

proof fn lemma_count_push(
    results: Seq<ReadRetentionResponseResultsItem>,
    item: ReadRetentionResponseResultsItem,
    status: RetentionParticipantStatus,
)
    ensures
        count_status(results.push(item), status) == count_status(results, status) + if item.status
            == status {
            1nat
        } else {
            0nat
        },
{
    assert(results.push(item).drop_last() =~= results);
}

proof fn lemma_count_bound(results: Seq<ReadRetentionResponseResultsItem>)
    ensures
        count_status(results, RetentionParticipantStatus::Completed) + count_status(
            results,
            RetentionParticipantStatus::Rejected,
        ) + count_status(results, RetentionParticipantStatus::Pending) == results.len(),
    decreases results.len(),
{
    if results.len() > 0 {
        lemma_count_bound(results.drop_last());
    }
}

fn find_last_row(rows: &Vec<StoredResult>, provider: &String) -> (r: Option<usize>)
    ensures
        match r {
            Some(i) => i as int == last_row(rows@, provider@, rows@.len() as int) && i < rows@.len(),
            None => last_row(rows@, provider@, rows@.len() as int) < 0,
        },
{
    let mut n = rows.len();
    while n > 0
        invariant
            n <= rows@.len(),
            last_row(rows@, provider@, rows@.len() as int) == last_row(rows@, provider@, n as int),
        decreases n,
    {
        if rows[n - 1].provider_instance == *provider {
            return Some(n - 1);
        }
        n = n - 1;
    }
    None
}

fn appears_before(list: &Vec<String>, k: usize) -> (r: bool)
    requires
        k < list@.len(),
    ensures
        r == exists|j: int| 0 <= j < k && #[trigger] list@[j]@ == list@[k as int]@,
{
    let mut j: usize = 0;
    while j < k
        invariant
            k < list@.len(),
            j <= k,
            forall|a: int| 0 <= a < j ==> list@[a]@ != list@[k as int]@,
        decreases k - j,
    {
        if list[j] == list[k] {
            return true;
        }
        j = j + 1;
    }
    false
}

/// Builds the report of a stored retention action from its identity and its
/// stored participant outcome rows.
pub fn retention_response(identity: RetentionIdentity, rows: Vec<StoredResult>) -> (r: Result<
    ReadRetentionResponse,
    Fault,
>)
    ensures
        match r {
            Ok(response) => reports(response, identity, rows@),
            Err(fault) => parsed_mode(identity.mode@) == Err::<RetentionMode, Fault>(fault),
        },
{
    let parts = &identity.participant_instances;
    let mut results: Vec<ReadRetentionResponseResultsItem> = Vec::new();
    let mut completed: usize = 0;
    let mut rejected: usize = 0;
    let mut k: usize = 0;
    while k < parts.len()
        invariant
            k <= parts@.len(),
            results@.len() == k,
            completed == count_status(results@, RetentionParticipantStatus::Completed),
            rejected == count_status(results@, RetentionParticipantStatus::Rejected),
            completed + rejected <= k,
            forall|a: int|
                0 <= a < k ==> result_view(#[trigger] results@[a]) == (
                    parts@[a]@,
                    participant_outcome(parts@, rows@, a).0,
                    participant_outcome(parts@, rows@, a).1,
                ),
        decreases parts@.len() - k,
    {
        let provider = parts[k].clone();
        let (status, receipt) = if appears_before(parts, k) {
            (RetentionParticipantStatus::Pending, None)
        } else {
            match find_last_row(&rows, &provider) {
                None => (RetentionParticipantStatus::Pending, None),
                Some(i) => {
                    if rows[i].status == "completed".to_owned() {
                        (RetentionParticipantStatus::Completed, rows[i].receipt.clone())
                    } else {
                        (RetentionParticipantStatus::Rejected, None)
                    }
                },
            }
        };
        let item = ReadRetentionResponseResultsItem {
            provider_instance: provider,
            status,
            receipt: Nullable(receipt),
        };
        proof {
            lemma_count_push(results@, item, RetentionParticipantStatus::Completed);
            lemma_count_push(results@, item, RetentionParticipantStatus::Rejected);
        }
        match status {
            RetentionParticipantStatus::Completed => completed = completed + 1,
            RetentionParticipantStatus::Rejected => rejected = rejected + 1,
            RetentionParticipantStatus::Pending => {},
        }
        results.push(item);
        k = k + 1;
    }
    let status = if completed + rejected < results.len() {
        RetentionStatus::InProgress
    } else if rejected > 0 {
        RetentionStatus::Partial
    } else {
        RetentionStatus::Completed
    };
    let mode = match parse_retention_mode(identity.mode.as_str()) {
        Ok(mode) => mode,
        Err(fault) => {
            return Err(fault);
        },
    };
    Ok(
        ReadRetentionResponse {
            scope_kind: identity.scope_kind,
            scope_id: identity.scope_id,
            subject: identity.subject,
            mode,
            reason: identity.reason,
            status,
            results,
        },
    )
}

/// Counts the completed, rejected and pending participants of a report.
pub fn retention_counts(response: &ReadRetentionResponse) -> (r: (i64, i64, i64))
    requires
        response.results@.len() <= i64::MAX,
    ensures
        r.0 == count_status(response.results@, RetentionParticipantStatus::Completed),
        r.1 == count_status(response.results@, RetentionParticipantStatus::Rejected),
        r.2 == response.results@.len() - r.0 - r.1,
{
    let mut completed: usize = 0;
    let mut rejected: usize = 0;
    let mut k: usize = 0;
    while k < response.results.len()
        invariant
            k <= response.results@.len(),
            completed == count_status(response.results@.take(k as int), RetentionParticipantStatus::Completed),
            rejected == count_status(response.results@.take(k as int), RetentionParticipantStatus::Rejected),
            completed + rejected <= k,
        decreases response.results@.len() - k,
    {
        proof {
            assert(response.results@.take(k + 1) =~= response.results@.take(k as int).push(response.results@[k as int]));
            lemma_count_push(response.results@.take(k as int), response.results@[k as int], RetentionParticipantStatus::Completed);
            lemma_count_push(response.results@.take(k as int), response.results@[k as int], RetentionParticipantStatus::Rejected);
        }
        match response.results[k].status {
            RetentionParticipantStatus::Completed => completed = completed + 1,
            RetentionParticipantStatus::Rejected => rejected = rejected + 1,
            RetentionParticipantStatus::Pending => {},
        }
        k = k + 1;
    }
    assert(response.results@.take(k as int) =~= response.results@);
    let pending = response.results.len() - completed - rejected;
    (completed as i64, rejected as i64, pending as i64)
}

/// How many of the first `n` participants have this outcome status.
pub open spec fn outcome_count(
    participants: Seq<String>,
    rows: Seq<StoredResult>,
    status: RetentionParticipantStatus,
    n: int,
) -> nat
    decreases n,
{
    if n <= 0 {
        0
    } else {
        outcome_count(participants, rows, status, n - 1) + if participant_outcome(
            participants,
            rows,
            n - 1,
        ).0 == status {
            1nat
        } else {
            0nat
        }
    }
}

proof fn lemma_report_counts(
    results: Seq<ReadRetentionResponseResultsItem>,
    participants: Seq<String>,
    rows: Seq<StoredResult>,
    status: RetentionParticipantStatus,
    n: int,
)
    requires
        0 <= n <= results.len(),
        results.len() == participants.len(),
        forall|k: int|
            0 <= k < participants.len() ==> (#[trigger] results[k]).status == participant_outcome(
                participants,
                rows,
                k,
            ).0,
    ensures
        count_status(results.take(n), status) == outcome_count(participants, rows, status, n),
    decreases n,
{
    if n > 0 {
        lemma_report_counts(results, participants, rows, status, n - 1);
        assert(results.take(n).drop_last() =~= results.take(n - 1));
        assert(results.take(n).last() == results[n - 1]);
    }
}

/// The counts of a report are the counts of the participant outcomes.
pub proof fn lemma_reported_counts(
    response: ReadRetentionResponse,
    identity: RetentionIdentity,
    rows: Seq<StoredResult>,
    status: RetentionParticipantStatus,
)
    requires
        reports(response, identity, rows),
    ensures
        count_status(response.results@, status) == outcome_count(
            identity.participant_instances@,
            rows,
            status,
            identity.participant_instances@.len() as int,
        ),
{
    let parts = identity.participant_instances@;
    assert forall|k: int| 0 <= k < parts.len() implies (#[trigger] response.results@[k]).status
        == participant_outcome(parts, rows, k).0 by {
        assert(result_view(response.results@[k]).1 == participant_outcome(parts, rows, k).0);
    }
    lemma_report_counts(response.results@, parts, rows, status, parts.len() as int);
    assert(response.results@.take(parts.len() as int) =~= response.results@);
}

/// The reported status agrees with the counts: in progress exactly when
/// some participant is pending, partial exactly when none is pending and
/// some rejected, completed exactly when every participant completed; and
/// the three counts add up to the participant count.
pub proof fn lemma_status_agrees_with_counts(
    response: ReadRetentionResponse,
    identity: RetentionIdentity,
    rows: Seq<StoredResult>,
)
    requires
        reports(response, identity, rows),
    ensures
        ({
            let completed = count_status(response.results@, RetentionParticipantStatus::Completed);
            let rejected = count_status(response.results@, RetentionParticipantStatus::Rejected);
            let pending = count_status(response.results@, RetentionParticipantStatus::Pending);
            &&& completed + rejected + pending == response.results@.len()
            &&& (response.status == RetentionStatus::InProgress) == (pending > 0)
            &&& (response.status == RetentionStatus::Partial) == (pending == 0 && rejected > 0)
            &&& (response.status == RetentionStatus::Completed) == (pending == 0 && rejected == 0)
        }),
{
    lemma_count_bound(response.results@);
}

/// Where a retention run stands.
#[derive(Clone, Copy, Debug, PartialEq, Eq, Structural)]
pub enum RetentionPhase {
    /// Waiting for the decision of the current guard.
    AwaitGuard,
    /// Waiting for storage to be ready.
    AwaitPrepared,
    /// Waiting for the action stored under the ID after recording it.
    AwaitIdentity,
    /// Waiting for the participants already completed.
    AwaitCompleted,
    /// Waiting for the current participant's answer.
    AwaitApplied,
    /// Waiting for the current participant's outcome to be stored.
    AwaitStored,
    /// Waiting for the stored action and its outcomes.
    AwaitResponse,
    /// The run has answered.
    Finished,
}

/// One participant outcome to store.
#[derive(Clone, Debug, PartialEq, Eq)]
pub struct ParticipantOutcome {
    /// The participant's plan index.
    pub participant: usize,
    /// `completed` when true, `rejected` otherwise.
    pub completed: bool,
    /// The trimmed receipt of a completion.
    pub receipt: Option<String>,
}

/// What the run asks its driver to do next.
#[derive(Debug, PartialEq, Eq)]
pub enum RetentionStep {
    /// Ask the guard at this plan index to check the action.
    CheckGuard(usize),
    /// Make sure storage is ready.
    Prepare,
    /// Record the action unless its ID is taken, then read back what is stored under it.
    Record,
    /// Read which participants already completed the action.
    LoadCompleted,
    /// Ask the participant at this plan index to apply the action.
    Apply(usize),
    /// Store this outcome; a stored completion is never replaced.
    StoreResult(ParticipantOutcome),
    /// Read the caller's action and its stored outcomes.
    LoadResponse,
    /// Answer the caller.
    Reply(Result<ExecuteRetentionResponse, ExecuteRetentionError>),
    /// Fail with a runtime failure.
    Fail(Fault),
}

/// What the driver reports back.
#[derive(Debug, PartialEq, Eq)]
pub enum RetentionEvent {
    GuardDecision(CheckRetentionResponse),
    GuardRejected,
    Prepared,
    Identity(Option<RetentionIdentity>),
    Completed(Vec<String>),
    Applied(ApplyRetentionResponse),
    ParticipantRejected,
    Stored,
    Loaded(Option<(RetentionIdentity, Vec<StoredResult>)>),
}

/// The view of a step.
pub enum RetentionStepView {
    CheckGuard(nat),
    Prepare,
    Record,
    LoadCompleted,
    Apply(nat),
    StoreResult(nat, bool, Option<Seq<char>>),
    LoadResponse,
    Reply(Result<ExecuteRetentionResponse, ExecuteRetentionError>),
    Fail(Fault),
}

/// The view of a step.
pub open spec fn retention_step_view(step: RetentionStep) -> RetentionStepView {
    match step {
        RetentionStep::CheckGuard(i) => RetentionStepView::CheckGuard(i as nat),
        RetentionStep::Prepare => RetentionStepView::Prepare,
        RetentionStep::Record => RetentionStepView::Record,
        RetentionStep::LoadCompleted => RetentionStepView::LoadCompleted,
        RetentionStep::Apply(k) => RetentionStepView::Apply(k as nat),
        RetentionStep::StoreResult(outcome) => RetentionStepView::StoreResult(
            outcome.participant as nat,
            outcome.completed,
            opt_string_view(outcome.receipt),
        ),
        RetentionStep::LoadResponse => RetentionStepView::LoadResponse,
        RetentionStep::Reply(reply) => RetentionStepView::Reply(reply),
        RetentionStep::Fail(fault) => RetentionStepView::Fail(fault),
    }
}

/// The fixed part of a retention run.
pub struct RetentionPlan {
    pub request: ExecuteRetentionRequest,
    pub caller: Seq<char>,
    pub guards: Seq<String>,
    pub participants: Seq<String>,
}

/// The changing part of a retention run.
pub struct RetentionState {
    pub phase: RetentionPhase,
    pub next_guard: nat,
    pub expected: Seq<String>,
    pub completed: Seq<String>,
    pub next_participant: nat,
}

/// The participant at plan index `k` is in the frozen participant set and
/// has not completed the action yet.
pub open spec fn due(plan: RetentionPlan, st: RetentionState, k: int) -> bool {
    &&& listed(st.expected, plan.participants[k]@)
    &&& !listed(st.completed, plan.participants[k]@)
}

/// The first plan index at or after `k` whose participant is due, or the
/// participant count.
pub open spec fn first_due(plan: RetentionPlan, st: RetentionState, k: int) -> int
    decreases plan.participants.len() - k,
{
    if k < 0 || k >= plan.participants.len() {
        plan.participants.len() as int
    } else if due(plan, st, k) {
        k
    } else {
        first_due(plan, st, k + 1)
    }
}

/// Move on to the guard at plan index `i`, or to storage once every guard allowed.
pub open spec fn guard_advance(plan: RetentionPlan, st: RetentionState, i: nat) -> (
    RetentionState,
    RetentionStepView,
) {
    if i >= plan.guards.len() {
        (
            RetentionState { phase: RetentionPhase::AwaitPrepared, next_guard: i, ..st },
            RetentionStepView::Prepare,
        )
    } else {
        (
            RetentionState { phase: RetentionPhase::AwaitGuard, next_guard: i, ..st },
            RetentionStepView::CheckGuard(i),
        )
    }
}

/// Move on to the first due participant at or after plan index `k`, or to
/// the final report when none is left.
pub open spec fn participant_advance(plan: RetentionPlan, st: RetentionState, k: nat) -> (
    RetentionState,
    RetentionStepView,
) {
    let next = first_due(plan, st, k as int);
    if next >= plan.participants.len() {
        (
            RetentionState {
                phase: RetentionPhase::AwaitResponse,
                next_participant: plan.participants.len(),
                ..st
            },
            RetentionStepView::LoadResponse,
        )
    } else {
        (
            RetentionState {
                phase: RetentionPhase::AwaitApplied,
                next_participant: next as nat,
                ..st
            },
            RetentionStepView::Apply(next as nat),
        )
    }
}

/// Finish with this step.
pub open spec fn retention_finish(st: RetentionState, step: RetentionStepView) -> (
    RetentionState,
    RetentionStepView,
) {
    (RetentionState { phase: RetentionPhase::Finished, ..st }, step)
}

/// The optional reason code of a guard decision, as bytes.
pub open spec fn reason_code_bytes(code: Option<String>) -> Option<Seq<u8>> {
    match code {
        Some(c) => Some(encode_utf8(c@)),
        None => None,
    }
}

/// The answer reporting a stored action with these outcome rows.
pub open spec fn execution_reply(identity: RetentionIdentity, rows: Seq<StoredResult>) -> RetentionStepView {
    let parts = identity.participant_instances@;
    let n = parts.len() as int;
    let completed = outcome_count(parts, rows, RetentionParticipantStatus::Completed, n);
    let rejected = outcome_count(parts, rows, RetentionParticipantStatus::Rejected, n);
    match parsed_mode(identity.mode@) {
        Err(fault) => RetentionStepView::Fail(fault),
        Ok(_) => RetentionStepView::Reply(
            Ok(
                ExecuteRetentionResponse {
                    status: overall_status(completed, rejected, parts.len()),
                    completed_count: completed as i64,
                    rejected_count: rejected as i64,
                    pending_count: (n - completed - rejected) as i64,
                },
            ),
        ),
    }
}

/// One transition of a retention run.
pub open spec fn retention_transition(
    plan: RetentionPlan,
    st: RetentionState,
    event: RetentionEvent,
) -> (RetentionState, RetentionStepView) {
    match event {
        RetentionEvent::GuardDecision(decision) => if !spec_valid_guard_decision(
            decision.allowed,
            encode_utf8(decision.decision_id@),
            reason_code_bytes(decision.reason_code),
        ) {
            retention_finish(
                st,
                RetentionStepView::Fail(Fault::ProtocolViolation(CapabilityRole::RetentionGuard)),
            )
        } else if !decision.allowed {
            retention_finish(st, RetentionStepView::Reply(Err(ExecuteRetentionError::BlockedByGuard)))
        } else {
            guard_advance(plan, st, st.next_guard + 1)
        },
        RetentionEvent::GuardRejected => retention_finish(
            st,
            RetentionStepView::Fail(Fault::GuardRejectedPreflight(st.next_guard as usize)),
        ),
        RetentionEvent::Prepared => if !keys_ok(plan.participants) {
            retention_finish(st, RetentionStepView::Fail(Fault::ParticipantInstanceKeys))
        } else {
            (RetentionState { phase: RetentionPhase::AwaitIdentity, ..st }, RetentionStepView::Record)
        },
        RetentionEvent::Identity(identity) => match identity {
            None => retention_finish(st, RetentionStepView::Fail(Fault::RetentionActionDisappeared)),
            Some(identity) => if !same_intent(
                identity,
                plan.request,
                plan.caller,
                mode_name(plan.request.mode),
            ) {
                retention_finish(
                    st,
                    RetentionStepView::Reply(Err(ExecuteRetentionError::IdempotencyConflict)),
                )
            } else {
                (
                    RetentionState {
                        phase: RetentionPhase::AwaitCompleted,
                        expected: identity.participant_instances@,
                        ..st
                    },
                    RetentionStepView::LoadCompleted,
                )
            },
        },
        RetentionEvent::Completed(completed) => participant_advance(
            plan,
            RetentionState { completed: completed@, ..st },
            0,
        ),
        RetentionEvent::Applied(response) => if !text_ok(response.receipt@, 1024) {
            retention_finish(
                st,
                RetentionStepView::Fail(Fault::ProtocolViolation(CapabilityRole::RetentionParticipant)),
            )
        } else {
            (
                RetentionState { phase: RetentionPhase::AwaitStored, ..st },
                RetentionStepView::StoreResult(
                    st.next_participant,
                    true,
                    Some(trimmed(response.receipt@)),
                ),
            )
        },
        RetentionEvent::ParticipantRejected => (
            RetentionState { phase: RetentionPhase::AwaitStored, ..st },
            RetentionStepView::StoreResult(st.next_participant, false, None),
        ),
        RetentionEvent::Stored => participant_advance(plan, st, st.next_participant + 1),
        RetentionEvent::Loaded(loaded) => match loaded {
            None => retention_finish(
                st,
                RetentionStepView::Fail(Fault::RetentionActionDisappearedAfterExecution),
            ),
            Some((identity, rows)) => retention_finish(st, execution_reply(identity, rows@)),
        },
    }
}

/// The run is in a phase that expects this event.
pub open spec fn retention_awaits(phase: RetentionPhase, event: RetentionEvent) -> bool {
    match event {
        RetentionEvent::GuardDecision(_) => phase == RetentionPhase::AwaitGuard,
        RetentionEvent::GuardRejected => phase == RetentionPhase::AwaitGuard,
        RetentionEvent::Prepared => phase == RetentionPhase::AwaitPrepared,
        RetentionEvent::Identity(_) => phase == RetentionPhase::AwaitIdentity,
        RetentionEvent::Completed(_) => phase == RetentionPhase::AwaitCompleted,
        RetentionEvent::Applied(_) => phase == RetentionPhase::AwaitApplied,
        RetentionEvent::ParticipantRejected => phase == RetentionPhase::AwaitApplied,
        RetentionEvent::Stored => phase == RetentionPhase::AwaitStored,
        RetentionEvent::Loaded(_) => phase == RetentionPhase::AwaitResponse,
    }
}

/// The event fits the machine's integer ranges: a reported action has at
/// most `i64::MAX` participants.
pub open spec fn retention_event_in_range(event: RetentionEvent) -> bool {
    event matches RetentionEvent::Loaded(Some((identity, _))) ==> identity.participant_instances@.len()
        <= i64::MAX
}

/// A run state is consistent with its plan: guards are consulted in order
/// and all of them allowed before storage is touched, and the current
/// participant is in range.
pub open spec fn retention_state_ok(plan: RetentionPlan, st: RetentionState) -> bool {
    &&& st.next_guard <= plan.guards.len()
    &&& st.phase == RetentionPhase::AwaitGuard ==> st.next_guard < plan.guards.len()
    &&& st.phase != RetentionPhase::AwaitGuard && st.phase != RetentionPhase::Finished
        ==> st.next_guard == plan.guards.len()
    &&& st.next_participant <= plan.participants.len()
    &&& (st.phase == RetentionPhase::AwaitApplied || st.phase == RetentionPhase::AwaitStored)
        ==> st.next_participant < plan.participants.len()
}

/// The guard's view of a retention mode.
pub open spec fn guard_mode(mode: RetentionMode) -> CheckRetentionRequestMode {
    match mode {
        RetentionMode::Delete => CheckRetentionRequestMode::Delete,
        RetentionMode::Anonymize => CheckRetentionRequestMode::Anonymize,
    }
}

/// The participant's view of a retention mode.
pub open spec fn participant_mode(mode: RetentionMode) -> ApplyRetentionRequestMode {
    match mode {
        RetentionMode::Delete => ApplyRetentionRequestMode::Delete,
        RetentionMode::Anonymize => ApplyRetentionRequestMode::Anonymize,
    }
}

/// One execution of a retention action: the decisions of the coordinator
/// between the guard and participant calls and the storage reads and writes
/// its driver performs.
pub struct ExecuteRetentionRun {
    request: ExecuteRetentionRequest,
    caller: String,
    reason: String,
    guards: Vec<String>,
    participants: Vec<String>,
    next_guard: usize,
    expected: Vec<String>,
    completed: Vec<String>,
    next_participant: usize,
    phase: RetentionPhase,
}

impl ExecuteRetentionRun {
    /// The fixed part of the run.
    pub closed spec fn plan(&self) -> RetentionPlan {
        RetentionPlan {
            request: self.request,
            caller: self.caller@,
            guards: self.guards@,
            participants: self.participants@,
        }
    }

    /// The changing part of the run.
    pub closed spec fn state(&self) -> RetentionState {
        RetentionState {
            phase: self.phase,
            next_guard: self.next_guard as nat,
            expected: self.expected@,
            completed: self.completed@,
            next_participant: self.next_participant as nat,
        }
    }

    /// The run's internal consistency.
    pub closed spec fn inv(&self) -> bool {
        &&& retention_state_ok(self.plan(), self.state())
        &&& self.reason@ == trimmed(self.request.reason@)
    }

    /// Starts a run for a caller that passed (`Some`) or failed (`None`) the
    /// retention caller allowlist, with the guard and participant instances
    /// in plan order.
    pub fn start(
        caller: Option<String>,
        request: ExecuteRetentionRequest,
        config: &DataGovernanceConfig,
        guards: Vec<String>,
        participants: Vec<String>,
    ) -> (r: (ExecuteRetentionRun, RetentionStep))
        ensures
            r.0.inv(),
            r.0.plan().request == request,
            r.0.plan().guards == guards@,
            r.0.plan().participants == participants@,
            r.0.state().expected.len() == 0,
            r.0.state().completed.len() == 0,
            r.0.state().next_participant == 0,
            ({
                let initial = RetentionState { phase: r.0.state().phase, next_guard: 0, ..r.0.state() };
                match caller {
                    None => r.0.state().phase == RetentionPhase::Finished && retention_step_view(r.1)
                        == RetentionStepView::Reply(Err(ExecuteRetentionError::Forbidden)),
                    Some(c) => {
                        &&& r.0.plan().caller == c@
                        &&& if !request_identity_ok(
                            request.action_id@,
                            request.scope_kind@,
                            request.scope_id@,
                            request.subject@,
                        ) || !text_ok(request.reason@, 512) {
                            r.0.state().phase == RetentionPhase::Finished && retention_step_view(r.1)
                                == RetentionStepView::Reply(Err(ExecuteRetentionError::InvalidRequest))
                        } else if participants@.len() == 0 || participants@.len() > config.max_participants {
                            r.0.state().phase == RetentionPhase::Finished && retention_step_view(r.1)
                                == RetentionStepView::Fail(Fault::ParticipantCardinality)
                        } else if guards@.len() > config.max_guards {
                            r.0.state().phase == RetentionPhase::Finished && retention_step_view(r.1)
                                == RetentionStepView::Fail(Fault::GuardCardinality)
                        } else if !keys_ok(guards@) {
                            r.0.state().phase == RetentionPhase::Finished && retention_step_view(r.1)
                                == RetentionStepView::Fail(Fault::GuardInstanceKeys)
                        } else {
                            (r.0.state(), retention_step_view(r.1)) == guard_advance(r.0.plan(), initial, 0)
                        }
                    },
                }
            }),
    {
        let reason = trim(request.reason.as_str());
        let (caller, step) = match caller {
            None => (String::new(), RetentionStep::Reply(Err(ExecuteRetentionError::Forbidden))),
            Some(c) => {
                if !valid_request_identity(
                    request.action_id.as_str(),
                    request.scope_kind.as_str(),
                    request.scope_id.as_str(),
                    request.subject.as_str(),
                ) || !valid_text(request.reason.as_str(), 512) {
                    (c, RetentionStep::Reply(Err(ExecuteRetentionError::InvalidRequest)))
                } else if participants.len() == 0 || participants.len() > config.max_participants {
                    (c, RetentionStep::Fail(Fault::ParticipantCardinality))
                } else if guards.len() > config.max_guards {
                    (c, RetentionStep::Fail(Fault::GuardCardinality))
                } else if !valid_instance_keys(&guards) {
                    (c, RetentionStep::Fail(Fault::GuardInstanceKeys))
                } else if guards.len() == 0 {
                    (c, RetentionStep::Prepare)
                } else {
                    (c, RetentionStep::CheckGuard(0))
                }
            },
        };
        let phase = match step {
            RetentionStep::Prepare => RetentionPhase::AwaitPrepared,
            RetentionStep::CheckGuard(_) => RetentionPhase::AwaitGuard,
            _ => RetentionPhase::Finished,
        };
        let run = ExecuteRetentionRun {
            request,
            caller,
            reason,
            guards,
            participants,
            next_guard: 0,
            expected: Vec::new(),
            completed: Vec::new(),
            next_participant: 0,
            phase,
        };
        (run, step)
    }

    /// Whether the run expects this event now.
    pub fn awaits(&self, event: &RetentionEvent) -> (r: bool)
        ensures
            r == retention_awaits(self.state().phase, *event),
    {
        match event {
            RetentionEvent::GuardDecision(_) => self.phase == RetentionPhase::AwaitGuard,
            RetentionEvent::GuardRejected => self.phase == RetentionPhase::AwaitGuard,
            RetentionEvent::Prepared => self.phase == RetentionPhase::AwaitPrepared,
            RetentionEvent::Identity(_) => self.phase == RetentionPhase::AwaitIdentity,
            RetentionEvent::Completed(_) => self.phase == RetentionPhase::AwaitCompleted,
            RetentionEvent::Applied(_) => self.phase == RetentionPhase::AwaitApplied,
            RetentionEvent::ParticipantRejected => self.phase == RetentionPhase::AwaitApplied,
            RetentionEvent::Stored => self.phase == RetentionPhase::AwaitStored,
            RetentionEvent::Loaded(_) => self.phase == RetentionPhase::AwaitResponse,
        }
    }

    /// The request the run executes.
    pub fn request(&self) -> (r: &ExecuteRetentionRequest)
        ensures
            *r == self.plan().request,
    {
        &self.request
    }

    /// The caller instance that owns the action.
    pub fn caller(&self) -> (r: &String)
        ensures
            r@ == self.plan().caller,
    {
        &self.caller
    }

    /// The request's reason, trimmed, as it is recorded and handed on.
    pub fn reason(&self) -> (r: &String)
        requires
            self.inv(),
        ensures
            r@ == trimmed(self.plan().request.reason@),
    {
        &self.reason
    }

    /// The stored name of the request's mode.
    pub fn mode_name(&self) -> (r: &'static str)
        ensures
            r@ == mode_name(self.plan().request.mode),
    {
        retention_mode_name(&self.request.mode)
    }

    /// The participant instances in plan order, as the action freezes them.
    pub fn participants(&self) -> (r: &Vec<String>)
        ensures
            r@ == self.plan().participants,
    {
        &self.participants
    }

    /// What every guard is asked: the exact action, scope, subject, mode and
    /// trimmed reason.
    pub fn check_request(&self) -> (r: CheckRetentionRequest)
        requires
            self.inv(),
        ensures
            r.action_id@ == self.plan().request.action_id@,
            r.scope_kind@ == self.plan().request.scope_kind@,
            r.scope_id@ == self.plan().request.scope_id@,
            r.subject@ == self.plan().request.subject@,
            r.mode == guard_mode(self.plan().request.mode),
            r.reason@ == trimmed(self.plan().request.reason@),
    {
        CheckRetentionRequest {
            action_id: self.request.action_id.clone(),
            scope_kind: self.request.scope_kind.clone(),
            scope_id: self.request.scope_id.clone(),
            subject: self.request.subject.clone(),
            mode: match self.request.mode {
                RetentionMode::Delete => CheckRetentionRequestMode::Delete,
                RetentionMode::Anonymize => CheckRetentionRequestMode::Anonymize,
            },
            reason: self.reason.clone(),
        }
    }

    /// What every participant is asked: the exact action, scope, subject,
    /// mode and trimmed reason.
    pub fn apply_request(&self) -> (r: ApplyRetentionRequest)
        requires
            self.inv(),
        ensures
            r.action_id@ == self.plan().request.action_id@,
            r.scope_kind@ == self.plan().request.scope_kind@,
            r.scope_id@ == self.plan().request.scope_id@,
            r.subject@ == self.plan().request.subject@,
            r.mode == participant_mode(self.plan().request.mode),
            r.reason@ == trimmed(self.plan().request.reason@),
    {
        ApplyRetentionRequest {
            action_id: self.request.action_id.clone(),
            scope_kind: self.request.scope_kind.clone(),
            scope_id: self.request.scope_id.clone(),
            subject: self.request.subject.clone(),
            mode: match self.request.mode {
                RetentionMode::Delete => ApplyRetentionRequestMode::Delete,
                RetentionMode::Anonymize => ApplyRetentionRequestMode::Anonymize,
            },
            reason: self.reason.clone(),
        }
    }

    fn finish(&mut self, step: RetentionStep) -> (r: RetentionStep)
        requires
            old(self).inv(),
        ensures
            final(self).inv(),
            final(self).plan() == old(self).plan(),
            (final(self).state(), retention_step_view(r)) == retention_finish(
                old(self).state(),
                retention_step_view(step),
            ),
    {
        self.phase = RetentionPhase::Finished;
        step
    }

    fn advance_participants(&mut self, k: usize) -> (r: RetentionStep)
        requires
            old(self).inv(),
            k <= old(self).participants@.len(),
            old(self).next_guard == old(self).guards@.len(),
        ensures
            final(self).inv(),
            final(self).plan() == old(self).plan(),
            (final(self).state(), retention_step_view(r)) == participant_advance(
                old(self).plan(),
                old(self).state(),
                k as nat,
            ),
    {
        let n = self.participants.len();
        let mut i = k;
        while i < n && !(contains_string(&self.expected, &self.participants[i])
            && !contains_string(&self.completed, &self.participants[i]))
            invariant
                n == self.participants@.len(),
                k <= i <= n,
                first_due(self.plan(), self.state(), k as int) == first_due(
                    self.plan(),
                    self.state(),
                    i as int,
                ),
            decreases n - i,
        {
            i = i + 1;
        }
        if i == n {
            self.phase = RetentionPhase::AwaitResponse;
            self.next_participant = n;
            RetentionStep::LoadResponse
        } else {
            self.phase = RetentionPhase::AwaitApplied;
            self.next_participant = i;
            RetentionStep::Apply(i)
        }
    }

    /// Takes the driver's report and decides the next step.
    pub fn step(&mut self, event: RetentionEvent) -> (r: RetentionStep)
        requires
            old(self).inv(),
            retention_awaits(old(self).state().phase, event),
            retention_event_in_range(event),
        ensures
            final(self).inv(),
            final(self).plan() == old(self).plan(),
            (final(self).state(), retention_step_view(r)) == retention_transition(
                old(self).plan(),
                old(self).state(),
                event,
            ),
    {
        match event {
            RetentionEvent::GuardDecision(decision) => {
                let reason_code = match &decision.reason_code {
                    Some(code) => Some(code.as_str()),
                    None => None,
                };
                if !valid_guard_decision(decision.allowed, decision.decision_id.as_str(), reason_code) {
                    self.finish(RetentionStep::Fail(Fault::ProtocolViolation(CapabilityRole::RetentionGuard)))
                } else if !decision.allowed {
                    self.finish(RetentionStep::Reply(Err(ExecuteRetentionError::BlockedByGuard)))
                } else {
                    let n = self.guards.len();
                    assert(self.next_guard < n);
                    let i = self.next_guard + 1;
                    self.next_guard = i;
                    if i == self.guards.len() {
                        self.phase = RetentionPhase::AwaitPrepared;
                        RetentionStep::Prepare
                    } else {
                        RetentionStep::CheckGuard(i)
                    }
                }
            },
            RetentionEvent::GuardRejected => {
                let i = self.next_guard;
                self.finish(RetentionStep::Fail(Fault::GuardRejectedPreflight(i)))
            },
            RetentionEvent::Prepared => {
                if !valid_instance_keys(&self.participants) {
                    self.finish(RetentionStep::Fail(Fault::ParticipantInstanceKeys))
                } else {
                    self.phase = RetentionPhase::AwaitIdentity;
                    RetentionStep::Record
                }
            },
            RetentionEvent::Identity(identity) => match identity {
                None => self.finish(RetentionStep::Fail(Fault::RetentionActionDisappeared)),
                Some(identity) => {
                    let mode = retention_mode_name(&self.request.mode);
                    if !same_retention_intent(&identity, &self.request, self.caller.as_str(), mode) {
                        self.finish(RetentionStep::Reply(Err(ExecuteRetentionError::IdempotencyConflict)))
                    } else {
                        self.expected = identity.participant_instances;
                        self.phase = RetentionPhase::AwaitCompleted;
                        RetentionStep::LoadCompleted
                    }
                },
            },
            RetentionEvent::Completed(completed) => {
                self.completed = completed;
                self.advance_participants(0)
            },
            RetentionEvent::Applied(response) => {
                if !valid_text(response.receipt.as_str(), 1024) {
                    self.finish(
                        RetentionStep::Fail(Fault::ProtocolViolation(CapabilityRole::RetentionParticipant)),
                    )
                } else {
                    self.phase = RetentionPhase::AwaitStored;
                    RetentionStep::StoreResult(
                        ParticipantOutcome {
                            participant: self.next_participant,
                            completed: true,
                            receipt: Some(trim(response.receipt.as_str())),
                        },
                    )
                }
            },
            RetentionEvent::ParticipantRejected => {
                self.phase = RetentionPhase::AwaitStored;
                RetentionStep::StoreResult(
                    ParticipantOutcome {
                        participant: self.next_participant,
                        completed: false,
                        receipt: None,
                    },
                )
            },
            RetentionEvent::Stored => {
                let n = self.participants.len();
                assert(self.next_participant < n);
                let k = self.next_participant + 1;
                self.advance_participants(k)
            },
            RetentionEvent::Loaded(loaded) => match loaded {
                None => self.finish(
                    RetentionStep::Fail(Fault::RetentionActionDisappearedAfterExecution),
                ),
                Some((identity, rows)) => {
                    let ghost id = identity;
                    let ghost rows_view = rows@;
                    match retention_response(identity, rows) {
                        Err(fault) => self.finish(RetentionStep::Fail(fault)),
                        Ok(response) => {
                            proof {
                                lemma_reported_counts(
                                    response,
                                    id,
                                    rows_view,
                                    RetentionParticipantStatus::Completed,
                                );
                                lemma_reported_counts(
                                    response,
                                    id,
                                    rows_view,
                                    RetentionParticipantStatus::Rejected,
                                );
                            }
                            let (completed_count, rejected_count, pending_count) = retention_counts(
                                &response,
                            );
                            self.finish(
                                RetentionStep::Reply(
                                    Ok(
                                        ExecuteRetentionResponse {
                                            status: response.status,
                                            completed_count,
                                            rejected_count,
                                            pending_count,
                                        },
                                    ),
                                ),
                            )
                        },
                    }
                },
            },
        }
    }
}

proof fn lemma_first_due(plan: RetentionPlan, st: RetentionState, k: int)
    requires
        0 <= k <= plan.participants.len(),
    ensures
        k <= first_due(plan, st, k) <= plan.participants.len(),
        first_due(plan, st, k) < plan.participants.len() ==> due(plan, st, first_due(plan, st, k)),
        forall|j: int| k <= j < first_due(plan, st, k) ==> !due(plan, st, j),
    decreases plan.participants.len() - k,
{
    if k < plan.participants.len() && !due(plan, st, k) {
        lemma_first_due(plan, st, k + 1);
    }
}

/// Every guard must allow before anything is stored or any participant
/// runs, a denial blocks the action, and a resumed execution asks only
/// participants of the frozen set that have not completed, skipping none of
/// them: every transition keeps the run consistent; the action is recorded
/// only once every guard allowed; a participant is asked to apply only when
/// every guard allowed, it is in the frozen set and it has not completed,
/// and every participant it passes over is not due; a well-formed denial is
/// answered `BlockedByGuard`.
pub proof fn lemma_retention_guarded_and_resumable(
    plan: RetentionPlan,
    st: RetentionState,
    event: RetentionEvent,
)
    requires
        retention_state_ok(plan, st),
        retention_awaits(st.phase, event),
    ensures
        ({
            let (next, step) = retention_transition(plan, st, event);
            &&& retention_state_ok(plan, next)
            &&& step matches RetentionStepView::Record ==> st.next_guard == plan.guards.len()
            &&& step matches RetentionStepView::Apply(k) ==> {
                &&& k < plan.participants.len()
                &&& next.next_guard == plan.guards.len()
                &&& due(plan, next, k as int)
            }
            &&& (event matches RetentionEvent::Completed(_)) ==> forall|j: int|
                0 <= j < next.next_participant ==> !due(plan, next, j)
            &&& (event matches RetentionEvent::Stored) ==> forall|j: int|
                st.next_participant < j < next.next_participant ==> !due(plan, next, j)
            &&& (event matches RetentionEvent::GuardDecision(d) && spec_valid_guard_decision(
                d.allowed,
                encode_utf8(d.decision_id@),
                reason_code_bytes(d.reason_code),
            ) && !d.allowed) ==> step == RetentionStepView::Reply(
                Err(ExecuteRetentionError::BlockedByGuard),
            )
        }),
{
    match event {
        RetentionEvent::Completed(completed) => {
            let st2 = RetentionState { completed: completed@, ..st };
            lemma_first_due(plan, st2, 0);
            let next = retention_transition(plan, st, event).0;
            assert forall|j: int| 0 <= j < next.next_participant implies !due(plan, next, j) by {
                assert(due(plan, next, j) == due(plan, st2, j));
            }
        },
        RetentionEvent::Stored => {
            lemma_first_due(plan, st, (st.next_participant + 1) as int);
            let next = retention_transition(plan, st, event).0;
            assert forall|j: int| st.next_participant < j < next.next_participant implies !due(
                plan,
                next,
                j,
            ) by {
                assert(due(plan, next, j) == due(plan, st, j));
            }
        },
        _ => {},
    }
}

/// A stored retention action is the same intent as a request exactly when
/// its requester, scope kind, scope ID, subject, mode and reason all equal
/// the request's (the reason once trimmed); a different requester, or a
/// different subject alone, is never the same intent.
pub proof fn lemma_retention_intent_is_owner_scoped(
    identity: RetentionIdentity,
    request: ExecuteRetentionRequest,
    requester: Seq<char>,
    mode: Seq<char>,
)
    ensures
        same_intent(identity, request, requester, mode) <==> (identity.requester_instance@
            == requester && identity.scope_kind@ == request.scope_kind@ && identity.scope_id@
            == request.scope_id@ && identity.subject@ == request.subject@ && identity.mode@ == mode
            && identity.reason@ == trimmed(request.reason@)),
        identity.requester_instance@ != requester ==> !same_intent(identity, request, requester, mode),
        identity.subject@ != request.subject@ ==> !same_intent(identity, request, requester, mode),
{
}

/// When a stored action's subject differs from the request's, a run that
/// reads it back answers an idempotency conflict and asks no participant.
pub proof fn lemma_other_subject_conflicts(
    plan: RetentionPlan,
    st: RetentionState,
    identity: RetentionIdentity,
)
    requires
        identity.subject@ != plan.request.subject@,
    ensures
        retention_transition(plan, st, RetentionEvent::Identity(Some(identity))).1
            == RetentionStepView::Reply(Err(ExecuteRetentionError::IdempotencyConflict)),
{
}

/// After a participant's outcome is stored, the run asks the first later
/// participant, in plan order, that is in the frozen participant set and
/// has not completed; it loads the final report exactly when no later
/// participant is such a one. The same holds from the first participant
/// once the completed participants are known.
pub proof fn lemma_next_participant_is_first_due(plan: RetentionPlan, st: RetentionState, event: RetentionEvent)
    requires
        retention_state_ok(plan, st),
        (st.phase == RetentionPhase::AwaitStored && event == RetentionEvent::Stored) || (st.phase
            == RetentionPhase::AwaitCompleted && event is Completed),
    ensures
        ({
            let (next, step) = retention_transition(plan, st, event);
            let from: int = if event is Stored {
                st.next_participant + 1int
            } else {
                0
            };
            &&& step is Apply || step is LoadResponse
            &&& step is LoadResponse <==> (forall|j: int|
                from <= j < plan.participants.len() ==> !((exists|i: int|
                    0 <= i < next.expected.len() && next.expected[i]@
                        == #[trigger] plan.participants[j]@) && !(exists|i: int|
                    0 <= i < next.completed.len() && next.completed[i]@
                        == plan.participants[j]@)))
            &&& step matches RetentionStepView::Apply(k) ==> {
                &&& from <= k < plan.participants.len()
                &&& exists|i: int|
                    0 <= i < next.expected.len() && next.expected[i]@ == plan.participants[k as int]@
                &&& !exists|i: int|
                    0 <= i < next.completed.len() && next.completed[i]@ == plan.participants[k as int]@
                &&& forall|j: int|
                    from <= j < k ==> !((exists|i: int|
                        0 <= i < next.expected.len() && next.expected[i]@
                            == #[trigger] plan.participants[j]@) && !(exists|i: int|
                        0 <= i < next.completed.len() && next.completed[i]@
                            == plan.participants[j]@))
            }
            &&& next.expected == st.expected
            &&& (event matches RetentionEvent::Completed(list) ==> next.completed == list@)
            &&& (event is Stored ==> next.completed == st.completed)
        }),
{
    let st2 = match event {
        RetentionEvent::Completed(list) => RetentionState { completed: list@, ..st },
        _ => st,
    };
    let from: int = if event is Stored {
        st.next_participant + 1int
    } else {
        0
    };
    lemma_first_due(plan, st2, from);
    let (next, step) = retention_transition(plan, st, event);
    assert forall|j: int| 0 <= j < plan.participants.len() implies (due(plan, st2, j) <==> due(
        plan,
        next,
        j,
    )) by {}
    if step is LoadResponse {
        assert forall|j: int| from <= j < plan.participants.len() implies !((exists|i: int|
            0 <= i < next.expected.len() && next.expected[i]@
                == #[trigger] plan.participants[j]@) && !(exists|i: int|
            0 <= i < next.completed.len() && next.completed[i]@ == plan.participants[j]@)) by {
            assert(!due(plan, st2, j));
            assert(!due(plan, next, j));
        }
    }
    if let RetentionStepView::Apply(k) = step {
        let k = k as int;
        assert(due(plan, st2, k));
        assert(due(plan, next, k));
        assert(from <= k < plan.participants.len());
        assert(!(forall|j: int|
            from <= j < plan.participants.len() ==> !((exists|i: int|
                0 <= i < next.expected.len() && next.expected[i]@
                    == #[trigger] plan.participants[j]@) && !(exists|i: int|
                0 <= i < next.completed.len() && next.completed[i]@ == plan.participants[j]@))));
        assert forall|j: int| from <= j < k implies !((exists|i: int|
            0 <= i < next.expected.len() && next.expected[i]@
                == #[trigger] plan.participants[j]@) && !(exists|i: int|
            0 <= i < next.completed.len() && next.completed[i]@ == plan.participants[j]@)) by {
            assert(!due(plan, st2, j));
            assert(!due(plan, next, j));
        }
    }
}

proof fn lemma_last_row(rows: Seq<StoredResult>, provider: Seq<char>, n: int)
    requires
        0 <= n <= rows.len(),
    ensures
        last_row(rows, provider, n) < n,
        last_row(rows, provider, n) >= 0 ==> {
            &&& rows[last_row(rows, provider, n)].provider_instance@ == provider
            &&& forall|j: int|
                last_row(rows, provider, n) < j < n ==> (#[trigger] rows[j]).provider_instance@
                    != provider
        },
        last_row(rows, provider, n) < 0 ==> forall|j: int|
            0 <= j < n ==> (#[trigger] rows[j]).provider_instance@ != provider,
    decreases n,
{
    if n > 0 && rows[n - 1].provider_instance@ != provider {
        lemma_last_row(rows, provider, n - 1);
    }
}

/// How a report reads the stored rows, for each participant of the frozen
/// set in order: it is completed, with that row's receipt, when its last
/// stored row says `completed`; rejected, without a receipt, when its last
/// stored row says anything else; pending when no row names it, and also
/// for a repeat of an instance already reported earlier in the list.
pub proof fn lemma_report_reads_last_row(
    response: ReadRetentionResponse,
    identity: RetentionIdentity,
    rows: Seq<StoredResult>,
    k: int,
)
    requires
        reports(response, identity, rows),
        0 <= k < identity.participant_instances@.len(),
    ensures
        ({
            let parts = identity.participant_instances@;
            let p = parts[k]@;
            let result = response.results@[k];
            let repeat = exists|j: int| 0 <= j < k && #[trigger] parts[j]@ == p;
            let stored = exists|i: int| 0 <= i < rows.len() && #[trigger] rows[i].provider_instance@ == p;
            &&& result.provider_instance@ == p
            &&& (result.status == RetentionParticipantStatus::Pending) <==> (repeat || !stored)
            &&& result.status == RetentionParticipantStatus::Completed ==> exists|i: int|
                0 <= i < rows.len() && rows[i].provider_instance@ == p && rows[i].status@
                    == "completed"@ && opt_string_view(result.receipt.0) == opt_string_view(
                    rows[i].receipt,
                ) && forall|j: int| i < j < rows.len() ==> (#[trigger] rows[j]).provider_instance@ != p
            &&& result.status == RetentionParticipantStatus::Rejected ==> {
                &&& result.receipt.0 is None
                &&& exists|i: int|
                    0 <= i < rows.len() && rows[i].provider_instance@ == p && rows[i].status@
                        != "completed"@ && forall|j: int|
                        i < j < rows.len() ==> (#[trigger] rows[j]).provider_instance@ != p
            }
            &&& (!repeat && stored) ==> forall|i: int|
                0 <= i < rows.len() && rows[i].provider_instance@ == p && (forall|j: int|
                    i < j < rows.len() ==> (#[trigger] rows[j]).provider_instance@ != p) ==> (
                result.status == RetentionParticipantStatus::Completed <==> rows[i].status@
                    == "completed"@)
        }),
{
    let parts = identity.participant_instances@;
    let p = parts[k]@;
    lemma_last_row(rows, p, rows.len() as int);
    assert(result_view(response.results@[k]) == (
        parts[k]@,
        participant_outcome(parts, rows, k).0,
        participant_outcome(parts, rows, k).1,
    ));
    let r = last_row(rows, p, rows.len() as int);
    if r >= 0 {
        assert(rows[r].provider_instance@ == p);
        assert forall|i: int|
            0 <= i < rows.len() && rows[i].provider_instance@ == p && (forall|j: int|
                i < j < rows.len() ==> (#[trigger] rows[j]).provider_instance@ != p) implies i == r by {
            if i < r {
                assert(rows[r].provider_instance@ == p);
            } else if i > r {
                assert(rows[i].provider_instance@ != p);
            }
        }
    }
}

proof fn lemma_outcome_counts_add_up(parts: Seq<String>, rows: Seq<StoredResult>, n: int)
    requires
        0 <= n <= parts.len(),
    ensures
        outcome_count(parts, rows, RetentionParticipantStatus::Completed, n) + outcome_count(
            parts,
            rows,
            RetentionParticipantStatus::Rejected,
            n,
        ) + outcome_count(parts, rows, RetentionParticipantStatus::Pending, n) == n,
    decreases n,
{
    if n > 0 {
        lemma_outcome_counts_add_up(parts, rows, n - 1);
    }
}

/// How each report to a retention run is answered: an ill-formed guard
/// decision is a guard protocol violation; a guard's domain rejection fails
/// naming that guard; once storage is ready, invalid or repeated participant
/// keys fail before anything is recorded; an action that cannot be read back
/// fails; a participant's well-formed receipt is stored trimmed as a
/// completion of that participant, an ill-formed one is a participant
/// protocol violation, and a rejection is stored as a rejection without a
/// receipt; and the final answer counts every frozen participant exactly
/// once, in progress exactly while one is pending, partial exactly when none
/// is pending and one was rejected, completed otherwise.
pub proof fn lemma_retention_answers(plan: RetentionPlan, st: RetentionState, event: RetentionEvent)
    requires
        retention_state_ok(plan, st),
        retention_awaits(st.phase, event),
        retention_event_in_range(event),
    ensures
        ({
            let (next, step) = retention_transition(plan, st, event);
            &&& (event matches RetentionEvent::GuardDecision(d) && !spec_valid_guard_decision(
                d.allowed,
                encode_utf8(d.decision_id@),
                reason_code_bytes(d.reason_code),
            )) ==> step == RetentionStepView::Fail(
                Fault::ProtocolViolation(CapabilityRole::RetentionGuard),
            )
            &&& (event matches RetentionEvent::GuardDecision(d) && spec_valid_guard_decision(
                d.allowed,
                encode_utf8(d.decision_id@),
                reason_code_bytes(d.reason_code),
            ) && d.allowed) ==> (if st.next_guard + 1 < plan.guards.len() {
                step == RetentionStepView::CheckGuard(st.next_guard + 1)
            } else {
                step == RetentionStepView::Prepare
            })
            &&& event is GuardRejected ==> step == RetentionStepView::Fail(
                Fault::GuardRejectedPreflight(st.next_guard as usize),
            )
            &&& event is Prepared ==> (if (exists|i: int|
                0 <= i < plan.participants.len() && !name_ok(#[trigger] plan.participants[i]@))
                || (exists|i: int, j: int|
                0 <= i < j < plan.participants.len() && #[trigger] plan.participants[i]@
                    == #[trigger] plan.participants[j]@) {
                step == RetentionStepView::Fail(Fault::ParticipantInstanceKeys)
            } else {
                step == RetentionStepView::Record
            })
            &&& event == RetentionEvent::Identity(None) ==> step == RetentionStepView::Fail(
                Fault::RetentionActionDisappeared,
            )
            &&& event matches RetentionEvent::Applied(a) ==> if text_ok(a.receipt@, 1024) {
                step == RetentionStepView::StoreResult(
                    st.next_participant,
                    true,
                    Some(trimmed(a.receipt@)),
                )
            } else {
                step == RetentionStepView::Fail(
                    Fault::ProtocolViolation(CapabilityRole::RetentionParticipant),
                )
            }
            &&& event is ParticipantRejected ==> step == RetentionStepView::StoreResult(
                st.next_participant,
                false,
                None,
            )
            &&& event == RetentionEvent::Loaded(None) ==> step == RetentionStepView::Fail(
                Fault::RetentionActionDisappearedAfterExecution,
            )
            &&& event matches RetentionEvent::Loaded(Some((identity, _))) ==> if parsed_mode(
                identity.mode@,
            ) is Err {
                step == RetentionStepView::Fail(Fault::InvalidStoredMode)
            } else {
                step matches RetentionStepView::Reply(Ok(response)) && {
                    let n = identity.participant_instances@.len();
                    &&& response.completed_count >= 0
                    &&& response.rejected_count >= 0
                    &&& response.pending_count >= 0
                    &&& response.completed_count + response.rejected_count + response.pending_count
                        == n
                    &&& (response.status == RetentionStatus::InProgress) <==> (response.pending_count
                        > 0)
                    &&& (response.status == RetentionStatus::Partial) <==> (response.pending_count
                        == 0 && response.rejected_count > 0)
                    &&& (response.status == RetentionStatus::Completed) <==> (response.pending_count
                        == 0 && response.rejected_count == 0)
                }
            }
        }),
{
    if let RetentionEvent::Loaded(Some((identity, rows))) = event {
        let parts = identity.participant_instances@;
        lemma_outcome_counts_add_up(parts, rows@, parts.len() as int);
    }
    if event is Prepared {
        if (exists|i: int|
            0 <= i < plan.participants.len() && !name_ok(#[trigger] plan.participants[i]@)) || (
        exists|i: int, j: int|
            0 <= i < j < plan.participants.len() && #[trigger] plan.participants[i]@
                == #[trigger] plan.participants[j]@) {
            assert(!keys_ok(plan.participants));
        }
    }
}

} // verus!
