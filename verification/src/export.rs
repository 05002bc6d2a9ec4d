//! Export creation: admitting a request, accepting what the sources
//! contribute within the configured bounds, and answering idempotent retries.

use vstd::prelude::*;
use vstd::utf8::encode_utf8;
use vstd::string::StringSliceAdditionalSpecFns;

use crate::config::DataGovernanceConfig;
use crate::contract::{
    CollectExportRequest, CollectExportResponse, CollectExportResponseItemsItem,
    CreateExportError, CreateExportRequest, CreateExportResponse, ReadExportResponseItemsItem,
};
use crate::fault::{CapabilityRole, Fault};
use crate::text::{
    decimal, decimal_text, media_type_ok, name_ok, relative_path_ok, request_identity_ok,
    valid_item_name, valid_media_type, valid_name, valid_request_identity,
};

verus! {

/// An export item as (provider instance, item name, media type, payload).
pub type ItemView = (Seq<char>, Seq<char>, Seq<char>, Seq<char>);

/// The view of a stored export item.
pub open spec fn item_view(item: ReadExportResponseItemsItem) -> ItemView {
    (item.provider_instance@, item.item_name@, item.media_type@, item.payload@)
}

/// The views of stored export items.
pub open spec fn items_view(items: Seq<ReadExportResponseItemsItem>) -> Seq<ItemView> {
    items.map_values(|item: ReadExportResponseItemsItem| item_view(item))
}

/// Size of a payload in bytes of UTF-8.
pub open spec fn payload_bytes(payload: Seq<char>) -> nat {
    encode_utf8(payload).len()
}

/// Total payload bytes of a list of items.
pub open spec fn payload_sum(items: Seq<ItemView>) -> nat
    decreases items.len(),
{
    if items.len() == 0 {
        0
    } else {
        payload_sum(items.drop_last()) + payload_bytes(items.last().3)
    }
}

/// Some item already uses this (provider instance, item name) key.
pub open spec fn key_taken(items: Seq<ItemView>, provider: Seq<char>, name: Seq<char>) -> bool {
    exists|i: int| 0 <= i < items.len() && #[trigger] items[i].0 == provider && items[i].1 == name
}

/// An item's name is a relative path, its media type is well formed and its
/// payload holds no NUL.
pub open spec fn item_shape_ok(name: Seq<char>, media_type: Seq<char>, payload: Seq<char>) -> bool {
    &&& relative_path_ok(name)
    &&& media_type_ok(media_type)
    &&& !encode_utf8(payload).contains(0u8)
}

/// The size bounds an export artifact must respect.
#[derive(Clone, Copy, Debug, PartialEq, Eq, Structural)]
pub struct ExportBounds {
    pub max_items: usize,
    pub max_item_bytes: usize,
    pub max_total_bytes: usize,
}

impl ExportBounds {
    /// The bounds are within the configuration's hard ceilings.
    pub open spec fn ok(self) -> bool {
        &&& 1 <= self.max_items <= 512
        &&& 1 <= self.max_item_bytes <= self.max_total_bytes
        &&& self.max_total_bytes <= 16_777_216
    }
}

/// The artifact collected so far respects every bound: each item is well
/// formed and within the per-item bound, keys are distinct, the item count
/// is within bounds and `total` is the exact payload total, within bounds.
pub open spec fn artifact_ok(items: Seq<ItemView>, total: nat, b: ExportBounds) -> bool {
    &&& items.len() <= b.max_items
    &&& total == payload_sum(items)
    &&& total <= b.max_total_bytes
    &&& forall|i: int|
        0 <= i < items.len() ==> item_shape_ok(#[trigger] items[i].1, items[i].2, items[i].3)
    &&& forall|i: int| 0 <= i < items.len() ==> payload_bytes(#[trigger] items[i].3) <= b.max_item_bytes
    &&& forall|i: int, j: int|
        0 <= i < j < items.len() ==> !(#[trigger] items[i].0 == #[trigger] items[j].0 && items[i].1
            == items[j].1)
}

/// The outcome of accepting one contributed item into the artifact.
pub open spec fn accept_item(
    items: Seq<ItemView>,
    total: nat,
    provider: Seq<char>,
    item: CollectExportResponseItemsItem,
    b: ExportBounds,
) -> Result<Result<(Seq<ItemView>, nat), CreateExportError>, Fault> {
    let name = item.item_name@;
    let media = item.media_type@;
    let payload = item.payload@;
    if !item_shape_ok(name, media, payload) || key_taken(items, provider, name) {
        Err(Fault::ProtocolViolation(CapabilityRole::DataExportSource))
    } else if payload_bytes(payload) > b.max_item_bytes {
        Ok(Err(CreateExportError::ArtifactTooLarge))
    } else if items.len() == b.max_items {
        Ok(Err(CreateExportError::ArtifactTooLarge))
    } else if total + payload_bytes(payload) > b.max_total_bytes {
        Ok(Err(CreateExportError::ArtifactTooLarge))
    } else {
        Ok(Ok((items.push((provider, name, media, payload)), total + payload_bytes(payload))))
    }
}

/// The outcome of accepting a source's items in order, stopping at the first
/// refusal.
pub open spec fn accept_all(
    items: Seq<ItemView>,
    total: nat,
    provider: Seq<char>,
    incoming: Seq<CollectExportResponseItemsItem>,
    b: ExportBounds,
) -> Result<Result<(Seq<ItemView>, nat), CreateExportError>, Fault>
    decreases incoming.len(),
{
    if incoming.len() == 0 {
        Ok(Ok((items, total)))
    } else {
        match accept_item(items, total, provider, incoming[0], b) {
            Ok(Ok((next_items, next_total))) => accept_all(
                next_items,
                next_total,
                provider,
                incoming.drop_first(),
                b,
            ),
            other => other,
        }
    }
}

/// Forgets the accepted artifact, keeping only whether and why acceptance stopped.
pub open spec fn acceptance_outcome(
    r: Result<Result<(Seq<ItemView>, nat), CreateExportError>, Fault>,
) -> Result<Result<(), CreateExportError>, Fault> {
    match r {
        Ok(Ok(_)) => Ok(Ok(())),
        Ok(Err(e)) => Ok(Err(e)),
        Err(f) => Err(f),
    }
}

/// Accepting an item keeps the artifact within its bounds.
pub proof fn lemma_accept_item_keeps_bounds(
    items: Seq<ItemView>,
    total: nat,
    provider: Seq<char>,
    item: CollectExportResponseItemsItem,
    b: ExportBounds,
)
    requires
        artifact_ok(items, total, b),
    ensures
        accept_item(items, total, provider, item, b) matches Ok(Ok((next_items, next_total)))
            ==> artifact_ok(next_items, next_total, b),
{
    if let Ok(Ok((next_items, next_total))) = accept_item(items, total, provider, item, b) {
        let added = (provider, item.item_name@, item.media_type@, item.payload@);
        assert(next_items == items.push(added));
        assert(next_items.drop_last() =~= items);
        assert forall|i: int, j: int|
            0 <= i < j < next_items.len() implies !(#[trigger] next_items[i].0
            == #[trigger] next_items[j].0 && next_items[i].1 == next_items[j].1) by {
            if j == items.len() {
                if next_items[i].0 == next_items[j].0 && next_items[i].1 == next_items[j].1 {
                    assert(items[i].0 == provider && items[i].1 == item.item_name@);
                    assert(key_taken(items, provider, item.item_name@));
                }
            } else {
                assert(next_items[i] == items[i] && next_items[j] == items[j]);
            }
        }
        assert forall|i: int| 0 <= i < next_items.len() implies item_shape_ok(
            #[trigger] next_items[i].1,
            next_items[i].2,
            next_items[i].3,
        ) by {
            if i < items.len() {
                assert(next_items[i] == items[i]);
            }
        }
        assert forall|i: int| 0 <= i < next_items.len() implies payload_bytes(
            #[trigger] next_items[i].3,
        ) <= b.max_item_bytes by {
            if i < items.len() {
                assert(next_items[i] == items[i]);
            }
        }
    }
}

/// Accepting a whole contribution keeps the artifact within its bounds.
pub proof fn lemma_accept_all_keeps_bounds(
    items: Seq<ItemView>,
    total: nat,
    provider: Seq<char>,
    incoming: Seq<CollectExportResponseItemsItem>,
    b: ExportBounds,
)
    requires
        artifact_ok(items, total, b),
    ensures
        accept_all(items, total, provider, incoming, b) matches Ok(Ok((next_items, next_total)))
            ==> artifact_ok(next_items, next_total, b),
    decreases incoming.len(),
{
    if incoming.len() > 0 {
        lemma_accept_item_keeps_bounds(items, total, provider, incoming[0], b);
        if let Ok(Ok((next_items, next_total))) = accept_item(items, total, provider, incoming[0], b) {
            lemma_accept_all_keeps_bounds(next_items, next_total, provider, incoming.drop_first(), b);
        }
    }
}

fn contains_nul(payload: &str) -> (r: bool)
    ensures
        r == encode_utf8(payload@).contains(0u8),
{
    let bytes = payload.as_bytes();
    let mut i: usize = 0;
    while i < bytes.len()
        invariant
            bytes@ == payload.spec_bytes(),
            i <= bytes@.len(),
            forall|j: int| 0 <= j < i ==> bytes@[j] != 0u8,
        decreases bytes@.len() - i,
    {
        if bytes[i] == 0u8 {
            assert(bytes@[i as int] == 0u8);
            return true;
        }
        i = i + 1;
    }
    false
}

fn key_in_use(items: &Vec<ReadExportResponseItemsItem>, provider: &String, name: &String) -> (r:
    bool)
    ensures
        r == key_taken(items_view(items@), provider@, name@),
{
    let mut i: usize = 0;
    while i < items.len()
        invariant
            i <= items@.len(),
            forall|j: int|
                0 <= j < i ==> !(items@[j].provider_instance@ == provider@ && items@[j].item_name@
                    == name@),
        decreases items@.len() - i,
    {
        if items[i].provider_instance == *provider && items[i].item_name == *name {
            assert(items_view(items@)[i as int].0 == provider@);
            return true;
        }
        i = i + 1;
    }
    assert(!key_taken(items_view(items@), provider@, name@)) by {
        if key_taken(items_view(items@), provider@, name@) {
            let k = choose|k: int|
                0 <= k < items_view(items@).len() && #[trigger] items_view(items@)[k].0 == provider@
                    && items_view(items@)[k].1 == name@;
            assert(items_view(items@)[k] == item_view(items@[k]));
        }
    }
    false
}

proof fn lemma_payload_sum_push(items: Seq<ItemView>, added: ItemView)
    ensures
        payload_sum(items.push(added)) == payload_sum(items) + payload_bytes(added.3),
{
    assert(items.push(added).drop_last() =~= items);
}

fn accept_one(
    items: &mut Vec<ReadExportResponseItemsItem>,
    total: &mut usize,
    provider: &String,
    item: &CollectExportResponseItemsItem,
    b: ExportBounds,
) -> (r: Result<Result<(), CreateExportError>, Fault>)
    requires
        b.ok(),
        artifact_ok(items_view(old(items)@), *old(total) as nat, b),
    ensures
        r == acceptance_outcome(
            accept_item(items_view(old(items)@), *old(total) as nat, provider@, *item, b),
        ),
        accept_item(items_view(old(items)@), *old(total) as nat, provider@, *item, b) matches Ok(
            Ok((next_items, next_total)),
        ) ==> items_view(final(items)@) == next_items && *final(total) == next_total,
{
    let payload_len = item.payload.as_str().as_bytes().len();
    if !valid_item_name(item.item_name.as_str()) || !valid_media_type(item.media_type.as_str())
        || contains_nul(item.payload.as_str()) || key_in_use(items, provider, &item.item_name) {
        return Err(Fault::ProtocolViolation(CapabilityRole::DataExportSource));
    }
    if payload_len > b.max_item_bytes {
        return Ok(Err(CreateExportError::ArtifactTooLarge));
    }
    if items.len() == b.max_items {
        return Ok(Err(CreateExportError::ArtifactTooLarge));
    }
    let next_total = total.saturating_add(payload_len);
    if next_total > b.max_total_bytes {
        return Ok(Err(CreateExportError::ArtifactTooLarge));
    }
    let ghost old_items = items_view(items@);
    items.push(
        ReadExportResponseItemsItem {
            provider_instance: provider.clone(),
            item_name: item.item_name.clone(),
            media_type: item.media_type.clone(),
            payload: item.payload.clone(),
        },
    );
    *total = next_total;
    assert(items_view(items@) =~= old_items.push(
        (provider@, item.item_name@, item.media_type@, item.payload@),
    ));
    r_ok()
}

fn r_ok() -> (r: Result<Result<(), CreateExportError>, Fault>)
    ensures
        r == Ok::<Result<(), CreateExportError>, Fault>(Ok(())),
{
    Ok(Ok(()))
}

/// Accepts the items one source contributed, in order, into the artifact;
/// stops at the first item that breaks the source protocol or a bound.
pub fn accept_source_items(
    items: &mut Vec<ReadExportResponseItemsItem>,
    total: &mut usize,
    provider: &String,
    incoming: &Vec<CollectExportResponseItemsItem>,
    b: ExportBounds,
) -> (r: Result<Result<(), CreateExportError>, Fault>)
    requires
        b.ok(),
        artifact_ok(items_view(old(items)@), *old(total) as nat, b),
    ensures
        r == acceptance_outcome(
            accept_all(items_view(old(items)@), *old(total) as nat, provider@, incoming@, b),
        ),
        accept_all(items_view(old(items)@), *old(total) as nat, provider@, incoming@, b) matches Ok(
            Ok((next_items, next_total)),
        ) ==> items_view(final(items)@) == next_items && *final(total) == next_total,
{
    let ghost start_items = items_view(items@);
    let ghost start_total = *total as nat;
    let mut i: usize = 0;
    assert(incoming@.skip(0) =~= incoming@);
    while i < incoming.len()
        invariant
            b.ok(),
            start_items == items_view(old(items)@),
            start_total == *old(total) as nat,
            i <= incoming@.len(),
            artifact_ok(items_view(items@), *total as nat, b),
            accept_all(start_items, start_total, provider@, incoming@, b) == accept_all(
                items_view(items@),
                *total as nat,
                provider@,
                incoming@.skip(i as int),
                b,
            ),
        decreases incoming@.len() - i,
    {
        let ghost before_items = items_view(items@);
        let ghost before_total = *total as nat;
        let ghost rest = incoming@.skip(i as int);
        assert(rest[0] == incoming@[i as int]);
        assert(rest.drop_first() =~= incoming@.skip(i + 1));
        assert(rest.len() > 0);
        assert(accept_all(before_items, before_total, provider@, rest, b) == match accept_item(
            before_items,
            before_total,
            provider@,
            rest[0],
            b,
        ) {
            Ok(Ok((next_items, next_total))) => accept_all(
                next_items,
                next_total,
                provider@,
                rest.drop_first(),
                b,
            ),
            other => other,
        });
        proof {
            lemma_accept_item_keeps_bounds(before_items, before_total, provider@, incoming@[i as int], b);
        }
        match accept_one(items, total, provider, &incoming[i], b) {
            Ok(Ok(())) => {},
            Ok(Err(e)) => {
                return Ok(Err(e));
            },
            Err(f) => {
                return Err(f);
            },
        }
        i = i + 1;
    }
    assert(incoming@.skip(i as int) =~= Seq::<CollectExportResponseItemsItem>::empty());
    Ok(Ok(()))
}

/// What is stored under an export ID, read back to answer a retry.
#[derive(Clone, Debug, PartialEq, Eq)]
pub struct ExportSummary {
    pub requester_instance: String,
    pub scope_kind: String,
    pub scope_id: String,
    pub subject: String,
    pub source_count: i64,
    pub item_count: i64,
    pub total_bytes: i64,
}

/// A create-export answer as (created, source count, item count, total bytes text).
pub type CreateReplyView = Result<(bool, i64, i64, Seq<char>), CreateExportError>;

/// The view of a create-export answer.
pub open spec fn create_reply_view(
    r: Result<CreateExportResponse, CreateExportError>,
) -> CreateReplyView {
    match r {
        Ok(response) => Ok(
            (response.created, response.source_count, response.item_count, response.total_bytes@),
        ),
        Err(e) => Err(e),
    }
}

/// The stored export belongs to this requester and covers the same scope and
/// subject as the request.
pub open spec fn same_export_intent(
    existing: ExportSummary,
    request: CreateExportRequest,
    requester: Seq<char>,
) -> bool {
    &&& existing.requester_instance@ == requester
    &&& existing.scope_kind@ == request.scope_kind@
    &&& existing.scope_id@ == request.scope_id@
    &&& existing.subject@ == request.subject@
}

/// How a retry is answered when an export already exists under its ID: the
/// stored export, not created again, for the same owner and intent; an
/// idempotency conflict otherwise.
pub open spec fn existing_reply(
    existing: ExportSummary,
    request: CreateExportRequest,
    requester: Seq<char>,
) -> CreateReplyView {
    if same_export_intent(existing, request, requester) {
        Ok((false, existing.source_count, existing.item_count, decimal_text(existing.total_bytes as int)))
    } else {
        Err(CreateExportError::IdempotencyConflict)
    }
}

/// Answers a create-export request whose ID is already stored.
pub fn existing_export_response(
    existing: &ExportSummary,
    request: &CreateExportRequest,
    requester_instance: &str,
) -> (r: Result<Result<CreateExportResponse, CreateExportError>, Fault>)
    ensures
        match r {
            Ok(reply) => create_reply_view(reply) == existing_reply(
                *existing,
                *request,
                requester_instance@,
            ),
            Err(_) => false,
        },
{
    let requester = requester_instance.to_owned();
    if existing.requester_instance != requester || existing.scope_kind != request.scope_kind
        || existing.scope_id != request.scope_id || existing.subject != request.subject {
        return Ok(Err(CreateExportError::IdempotencyConflict));
    }
    Ok(
        Ok(
            CreateExportResponse {
                created: false,
                source_count: existing.source_count,
                item_count: existing.item_count,
                total_bytes: decimal(existing.total_bytes),
            },
        ),
    )
}

/// Where a create-export run stands.
#[derive(Clone, Copy, Debug, PartialEq, Eq, Structural)]
pub enum ExportPhase {
    /// Waiting for what is stored under the export ID.
    AwaitSummary,
    /// Waiting for the contribution of the current source.
    AwaitCollected,
    /// Waiting for the encoded length of the artifact.
    AwaitSerialized,
    /// Waiting to learn whether the artifact was stored.
    AwaitStored,
    /// Waiting for the export a concurrent attempt stored first.
    AwaitStoredSummary,
    /// The run has answered.
    Finished,
}

/// The counts stored with a new export.
#[derive(Clone, Copy, Debug, PartialEq, Eq, Structural)]
pub struct ExportRecord {
    pub source_count: i64,
    pub item_count: i64,
    pub total_bytes: i64,
}

/// What the run asks its driver to do next.
#[derive(Debug, PartialEq, Eq)]
pub enum ExportStep {
    /// Read what is stored under the export ID, whoever owns it.
    LoadSummary,
    /// Ask the source at this plan index for its contribution.
    Collect(usize),
    /// Encode the collected items and report the encoded length.
    Serialize,
    /// Store the export with these counts unless its ID is taken; report whether it was stored.
    Store(ExportRecord),
    /// Answer the caller.
    Reply(Result<CreateExportResponse, CreateExportError>),
    /// Fail with a runtime failure.
    Fail(Fault),
}

/// What the driver reports back.
#[derive(Clone, Debug, PartialEq, Eq)]
pub enum ExportEvent {
    Summary(Option<ExportSummary>),
    Collected(CollectExportResponse),
    SourceRejected,
    Serialized(usize),
    Stored(bool),
}

/// The view of a step.
pub enum ExportStepView {
    LoadSummary,
    Collect(nat),
    Serialize,
    Store(ExportRecord),
    Reply(CreateReplyView),
    Fail(Fault),
}

/// The view of a step.
pub open spec fn export_step_view(step: ExportStep) -> ExportStepView {
    match step {
        ExportStep::LoadSummary => ExportStepView::LoadSummary,
        ExportStep::Collect(i) => ExportStepView::Collect(i as nat),
        ExportStep::Serialize => ExportStepView::Serialize,
        ExportStep::Store(record) => ExportStepView::Store(record),
        ExportStep::Reply(reply) => ExportStepView::Reply(create_reply_view(reply)),
        ExportStep::Fail(fault) => ExportStepView::Fail(fault),
    }
}

/// The changing part of a run.
pub struct ExportState {
    pub phase: ExportPhase,
    pub next_source: nat,
    pub items: Seq<ItemView>,
    pub total: nat,
}

/// The fixed part of a run.
pub struct ExportPlan {
    pub request: CreateExportRequest,
    pub caller: Seq<char>,
    pub sources: Seq<String>,
    pub max_sources: nat,
    pub bounds: ExportBounds,
}

/// Move on to the source at plan index `i`, or to encoding once every source
/// has contributed.
pub open spec fn export_advance(plan: ExportPlan, items: Seq<ItemView>, total: nat, i: nat) -> (
    ExportState,
    ExportStepView,
) {
    if i >= plan.sources.len() {
        (
            ExportState { phase: ExportPhase::AwaitSerialized, next_source: i, items, total },
            ExportStepView::Serialize,
        )
    } else if !name_ok(plan.sources[i as int]@) {
        (
            ExportState { phase: ExportPhase::Finished, next_source: i, items, total },
            ExportStepView::Fail(Fault::SourceInstanceKey),
        )
    } else {
        (
            ExportState { phase: ExportPhase::AwaitCollected, next_source: i, items, total },
            ExportStepView::Collect(i),
        )
    }
}

/// Finish with this step.
pub open spec fn export_finish(st: ExportState, step: ExportStepView) -> (ExportState, ExportStepView) {
    (ExportState { phase: ExportPhase::Finished, ..st }, step)
}

/// Finish with this step, discarding a refused artifact.
pub open spec fn export_discard(st: ExportState, step: ExportStepView) -> (ExportState, ExportStepView) {
    (ExportState { phase: ExportPhase::Finished, items: Seq::empty(), total: 0, ..st }, step)
}

/// One transition of a create-export run.
pub open spec fn export_transition(plan: ExportPlan, st: ExportState, event: ExportEvent) -> (
    ExportState,
    ExportStepView,
) {
    match event {
        ExportEvent::Summary(summary) => match summary {
            Some(existing) => export_finish(
                st,
                ExportStepView::Reply(existing_reply(existing, plan.request, plan.caller)),
            ),
            None => if st.phase == ExportPhase::AwaitStoredSummary {
                export_finish(st, ExportStepView::Fail(Fault::ConcurrentExportDisappeared))
            } else if plan.sources.len() == 0 || plan.sources.len() > plan.max_sources {
                export_finish(st, ExportStepView::Fail(Fault::SourceCardinality))
            } else {
                export_advance(plan, st.items, st.total, 0)
            },
        },
        ExportEvent::SourceRejected => export_finish(
            st,
            ExportStepView::Reply(Err(CreateExportError::SourceRejected)),
        ),
        ExportEvent::Collected(response) => match accept_all(
            st.items,
            st.total,
            plan.sources[st.next_source as int]@,
            response.items@,
            plan.bounds,
        ) {
            Ok(Ok((items, total))) => export_advance(plan, items, total, st.next_source + 1),
            Ok(Err(e)) => export_discard(st, ExportStepView::Reply(Err(e))),
            Err(fault) => export_discard(st, ExportStepView::Fail(fault)),
        },
        ExportEvent::Serialized(encoded_len) => if encoded_len > plan.bounds.max_total_bytes {
            export_finish(st, ExportStepView::Reply(Err(CreateExportError::ArtifactTooLarge)))
        } else {
            (
                ExportState { phase: ExportPhase::AwaitStored, ..st },
                ExportStepView::Store(
                    ExportRecord {
                        source_count: plan.sources.len() as i64,
                        item_count: st.items.len() as i64,
                        total_bytes: st.total as i64,
                    },
                ),
            )
        },
        ExportEvent::Stored(inserted) => if inserted {
            export_finish(
                st,
                ExportStepView::Reply(
                    Ok(
                        (
                            true,
                            plan.sources.len() as i64,
                            st.items.len() as i64,
                            decimal_text(st.total as int),
                        ),
                    ),
                ),
            )
        } else {
            (ExportState { phase: ExportPhase::AwaitStoredSummary, ..st }, ExportStepView::LoadSummary)
        },
    }
}

/// The run is in a phase that expects this event.
pub open spec fn export_awaits(phase: ExportPhase, event: ExportEvent) -> bool {
    match event {
        ExportEvent::Summary(_) => phase == ExportPhase::AwaitSummary || phase
            == ExportPhase::AwaitStoredSummary,
        ExportEvent::Collected(_) => phase == ExportPhase::AwaitCollected,
        ExportEvent::SourceRejected => phase == ExportPhase::AwaitCollected,
        ExportEvent::Serialized(_) => phase == ExportPhase::AwaitSerialized,
        ExportEvent::Stored(_) => phase == ExportPhase::AwaitStored,
    }
}

/// One attempt to create an export: the decisions of the coordinator
/// between the storage reads and writes and the source calls its driver
/// performs.
pub struct CreateExportRun {
    request: CreateExportRequest,
    caller: String,
    sources: Vec<String>,
    max_sources: usize,
    bounds: ExportBounds,
    next_source: usize,
    items: Vec<ReadExportResponseItemsItem>,
    total: usize,
    phase: ExportPhase,
}

impl CreateExportRun {
    /// The fixed part of the run.
    pub closed spec fn plan(&self) -> ExportPlan {
        ExportPlan {
            request: self.request,
            caller: self.caller@,
            sources: self.sources@,
            max_sources: self.max_sources as nat,
            bounds: self.bounds,
        }
    }

    /// The changing part of the run.
    pub closed spec fn state(&self) -> ExportState {
        ExportState {
            phase: self.phase,
            next_source: self.next_source as nat,
            items: items_view(self.items@),
            total: self.total as nat,
        }
    }

    /// The run's internal consistency: bounds within their ceilings, the
    /// artifact within its bounds, and a source in range while collecting.
    pub closed spec fn inv(&self) -> bool {
        &&& self.bounds.ok()
        &&& 1 <= self.max_sources <= 64
        &&& artifact_ok(items_view(self.items@), self.total as nat, self.bounds)
        &&& self.next_source <= self.sources@.len()
        &&& self.phase != ExportPhase::AwaitSummary && self.phase != ExportPhase::Finished
            ==> 0 < self.sources@.len() <= self.max_sources
        &&& self.phase == ExportPhase::AwaitCollected ==> self.next_source < self.sources@.len()
    }

    /// Starts a run for a caller that passed (`Some`) or failed (`None`) the
    /// export caller allowlist, with the source instances in plan order.
    pub fn start(
        caller: Option<String>,
        request: CreateExportRequest,
        config: &DataGovernanceConfig,
        sources: Vec<String>,
    ) -> (r: (CreateExportRun, ExportStep))
        requires
            config.valid(),
        ensures
            r.0.inv(),
            r.0.plan().request == request,
            r.0.plan().sources == sources@,
            r.0.plan().max_sources == config.max_sources,
            r.0.plan().bounds == (ExportBounds {
                max_items: config.max_items,
                max_item_bytes: config.max_item_bytes,
                max_total_bytes: config.max_total_bytes,
            }),
            r.0.state().items.len() == 0,
            r.0.state().total == 0,
            match caller {
                None => r.0.state().phase == ExportPhase::Finished && export_step_view(r.1)
                    == ExportStepView::Reply(Err(CreateExportError::Forbidden)),
                Some(c) => {
                    &&& r.0.plan().caller == c@
                    &&& if !request_identity_ok(
                        request.export_id@,
                        request.scope_kind@,
                        request.scope_id@,
                        request.subject@,
                    ) {
                        r.0.state().phase == ExportPhase::Finished && export_step_view(r.1)
                            == ExportStepView::Reply(Err(CreateExportError::InvalidRequest))
                    } else {
                        r.0.state().phase == ExportPhase::AwaitSummary && export_step_view(r.1)
                            == ExportStepView::LoadSummary
                    }
                },
            },
    {
        let bounds = ExportBounds {
            max_items: config.max_items,
            max_item_bytes: config.max_item_bytes,
            max_total_bytes: config.max_total_bytes,
        };
        let (caller, phase, step) = match caller {
            None => (String::new(), ExportPhase::Finished, ExportStep::Reply(Err(CreateExportError::Forbidden))),
            Some(c) => {
                if !valid_request_identity(
                    request.export_id.as_str(),
                    request.scope_kind.as_str(),
                    request.scope_id.as_str(),
                    request.subject.as_str(),
                ) {
                    (c, ExportPhase::Finished, ExportStep::Reply(Err(CreateExportError::InvalidRequest)))
                } else {
                    (c, ExportPhase::AwaitSummary, ExportStep::LoadSummary)
                }
            },
        };
        let run = CreateExportRun {
            request,
            caller,
            sources,
            max_sources: config.max_sources,
            bounds,
            next_source: 0,
            items: Vec::new(),
            total: 0,
            phase,
        };
        assert(items_view(run.items@) =~= Seq::<ItemView>::empty());
        (run, step)
    }

    /// Whether the run expects this event now.
    pub fn awaits(&self, event: &ExportEvent) -> (r: bool)
        ensures
            r == export_awaits(self.state().phase, *event),
    {
        match event {
            ExportEvent::Summary(_) => self.phase == ExportPhase::AwaitSummary || self.phase
                == ExportPhase::AwaitStoredSummary,
            ExportEvent::Collected(_) => self.phase == ExportPhase::AwaitCollected,
            ExportEvent::SourceRejected => self.phase == ExportPhase::AwaitCollected,
            ExportEvent::Serialized(_) => self.phase == ExportPhase::AwaitSerialized,
            ExportEvent::Stored(_) => self.phase == ExportPhase::AwaitStored,
        }
    }

    /// The request the run answers.
    pub fn request(&self) -> (r: &CreateExportRequest)
        ensures
            *r == self.plan().request,
    {
        &self.request
    }

    /// The caller instance that will own the export.
    pub fn caller(&self) -> (r: &String)
        ensures
            r@ == self.plan().caller,
    {
        &self.caller
    }

    /// The items collected so far, in plan order.
    pub fn items(&self) -> (r: &Vec<ReadExportResponseItemsItem>)
        ensures
            items_view(r@) == self.state().items,
    {
        &self.items
    }

    /// What the current source is asked for: the request's ID, scope and subject.
    pub fn collect_request(&self) -> (r: CollectExportRequest)
        ensures
            r.export_id@ == self.plan().request.export_id@,
            r.scope_kind@ == self.plan().request.scope_kind@,
            r.scope_id@ == self.plan().request.scope_id@,
            r.subject@ == self.plan().request.subject@,
    {
        CollectExportRequest {
            export_id: self.request.export_id.clone(),
            scope_kind: self.request.scope_kind.clone(),
            scope_id: self.request.scope_id.clone(),
            subject: self.request.subject.clone(),
        }
    }

    fn advance(&mut self, i: usize) -> (r: ExportStep)
        requires
            old(self).inv(),
            i <= old(self).sources@.len(),
            0 < old(self).sources@.len() <= old(self).max_sources,
        ensures
            final(self).inv(),
            final(self).plan() == old(self).plan(),
            (final(self).state(), export_step_view(r)) == export_advance(
                old(self).plan(),
                old(self).state().items,
                old(self).state().total,
                i as nat,
            ),
    {
        self.next_source = i;
        if i == self.sources.len() {
            self.phase = ExportPhase::AwaitSerialized;
            ExportStep::Serialize
        } else if !valid_name(self.sources[i].as_str()) {
            self.phase = ExportPhase::Finished;
            ExportStep::Fail(Fault::SourceInstanceKey)
        } else {
            self.phase = ExportPhase::AwaitCollected;
            ExportStep::Collect(i)
        }
    }

    fn finish(&mut self, step: ExportStep) -> (r: ExportStep)
        requires
            old(self).inv(),
        ensures
            final(self).inv(),
            final(self).plan() == old(self).plan(),
            (final(self).state(), export_step_view(r)) == export_finish(
                old(self).state(),
                export_step_view(step),
            ),
    {
        self.phase = ExportPhase::Finished;
        step
    }

    fn discard(&mut self, step: ExportStep) -> (r: ExportStep)
        requires
            old(self).bounds.ok(),
            1 <= old(self).max_sources <= 64,
            old(self).next_source <= old(self).sources@.len(),
        ensures
            final(self).inv(),
            final(self).plan() == old(self).plan(),
            (final(self).state(), export_step_view(r)) == export_discard(
                old(self).state(),
                export_step_view(step),
            ),
    {
        self.items = Vec::new();
        self.total = 0;
        self.phase = ExportPhase::Finished;
        assert(items_view(self.items@) =~= Seq::<ItemView>::empty());
        step
    }

    /// Takes the driver's report and decides the next step.
    pub fn step(&mut self, event: ExportEvent) -> (r: ExportStep)
        requires
            old(self).inv(),
            export_awaits(old(self).state().phase, event),
        ensures
            final(self).inv(),
            final(self).plan() == old(self).plan(),
            (final(self).state(), export_step_view(r)) == export_transition(
                old(self).plan(),
                old(self).state(),
                event,
            ),
    {
        match event {
            ExportEvent::Summary(summary) => match summary {
                Some(existing) => {
                    let reply = existing_export_response(
                        &existing,
                        &self.request,
                        self.caller.as_str(),
                    );
                    match reply {
                        Ok(reply) => self.finish(ExportStep::Reply(reply)),
                        Err(fault) => self.finish(ExportStep::Fail(fault)),
                    }
                },
                None => {
                    if self.phase == ExportPhase::AwaitStoredSummary {
                        self.finish(ExportStep::Fail(Fault::ConcurrentExportDisappeared))
                    } else if self.sources.len() == 0 || self.sources.len() > self.max_sources {
                        self.finish(ExportStep::Fail(Fault::SourceCardinality))
                    } else {
                        self.advance(0)
                    }
                },
            },
            ExportEvent::SourceRejected => self.finish(
                ExportStep::Reply(Err(CreateExportError::SourceRejected)),
            ),
            ExportEvent::Collected(response) => {
                let i = self.next_source;
                let provider = self.sources[i].clone();
                let ghost before = self.state();
                let mut items: Vec<ReadExportResponseItemsItem> = Vec::new();
                std::mem::swap(&mut items, &mut self.items);
                let mut total = self.total;
                assert(items_view(items@) == before.items);
                proof {
                    lemma_accept_all_keeps_bounds(
                        before.items,
                        before.total,
                        provider@,
                        response.items@,
                        self.bounds,
                    );
                }
                let accepted = accept_source_items(
                    &mut items,
                    &mut total,
                    &provider,
                    &response.items,
                    self.bounds,
                );
                match accepted {
                    Ok(Ok(())) => {
                        self.items = items;
                        self.total = total;
                        self.advance(i + 1)
                    },
                    Ok(Err(e)) => {
                        self.discard(ExportStep::Reply(Err(e)))
                    },
                    Err(fault) => {
                        self.discard(ExportStep::Fail(fault))
                    },
                }
            },
            ExportEvent::Serialized(encoded_len) => {
                if encoded_len > self.bounds.max_total_bytes {
                    self.finish(ExportStep::Reply(Err(CreateExportError::ArtifactTooLarge)))
                } else {
                    self.phase = ExportPhase::AwaitStored;
                    ExportStep::Store(
                        ExportRecord {
                            source_count: self.sources.len() as i64,
                            item_count: self.items.len() as i64,
                            total_bytes: self.total as i64,
                        },
                    )
                }
            },
            ExportEvent::Stored(inserted) => {
                if inserted {
                    let response = CreateExportResponse {
                        created: true,
                        source_count: self.sources.len() as i64,
                        item_count: self.items.len() as i64,
                        total_bytes: decimal(self.total as i64),
                    };
                    self.finish(ExportStep::Reply(Ok(response)))
                } else {
                    self.phase = ExportPhase::AwaitStoredSummary;
                    ExportStep::LoadSummary
                }
            },
        }
    }
}

/// A run state is consistent with its plan: the artifact is within its
/// bounds, and once encoding is asked for every source has contributed.
pub open spec fn export_state_ok(plan: ExportPlan, st: ExportState) -> bool {
    &&& artifact_ok(st.items, st.total, plan.bounds)
    &&& st.next_source <= plan.sources.len()
    &&& st.phase == ExportPhase::AwaitCollected ==> st.next_source < plan.sources.len()
    &&& st.phase == ExportPhase::AwaitSerialized || st.phase == ExportPhase::AwaitStored
        ==> st.next_source == plan.sources.len()
}

/// Bounds are enforced before persistence and sources contribute in plan
/// order: every transition keeps the run state consistent; the first source
/// asked is the first in the plan and each later one is the next in the
/// plan; and a run asks to store an export only after every
/// bound source contributed, with the artifact within the item, per-item and
/// total payload bounds, with keys distinct and items well formed, with an
/// encoded envelope no larger than the total bound, and with stored counts
/// that are the artifact's own.
pub proof fn lemma_export_store_within_bounds(plan: ExportPlan, st: ExportState, event: ExportEvent)
    requires
        plan.bounds.ok(),
        export_state_ok(plan, st),
        export_awaits(st.phase, event),
    ensures
        export_state_ok(plan, export_transition(plan, st, event).0),
        export_transition(plan, st, event).1 matches ExportStepView::Collect(i) ==> {
            &&& i < plan.sources.len()
            &&& (event matches ExportEvent::Summary(_)) ==> i == 0
            &&& (event matches ExportEvent::Collected(_)) ==> i == st.next_source + 1
        },
        export_transition(plan, st, event).1 matches ExportStepView::Store(record) ==> {
            &&& st.next_source == plan.sources.len()
            &&& artifact_ok(st.items, st.total, plan.bounds)
            &&& event matches ExportEvent::Serialized(encoded_len) && encoded_len
                <= plan.bounds.max_total_bytes
            &&& record.item_count == st.items.len()
            &&& record.total_bytes == payload_sum(st.items)
            &&& record.source_count == plan.sources.len() as i64
        },
{
    if let ExportEvent::Collected(response) = event {
        lemma_accept_all_keeps_bounds(
            st.items,
            st.total,
            plan.sources[st.next_source as int]@,
            response.items@,
            plan.bounds,
        );
    }
}

/// A retry of an existing export is answered as the stored export, not
/// created again and with the stored counts, exactly when the stored
/// requester, scope kind, scope ID and subject all equal the retry's; any
/// difference in any one of them, the subject alone included, is an
/// idempotency conflict.
pub proof fn lemma_export_retry_is_owner_scoped(
    existing: ExportSummary,
    request: CreateExportRequest,
    requester: Seq<char>,
)
    ensures
        ({
            let same = existing.requester_instance@ == requester && existing.scope_kind@
                == request.scope_kind@ && existing.scope_id@ == request.scope_id@
                && existing.subject@ == request.subject@;
            &&& same ==> existing_reply(existing, request, requester) == Ok::<
                (bool, i64, i64, Seq<char>),
                CreateExportError,
            >(
                (
                    false,
                    existing.source_count,
                    existing.item_count,
                    decimal_text(existing.total_bytes as int),
                ),
            )
            &&& !same ==> existing_reply(existing, request, requester) == Err::<
                (bool, i64, i64, Seq<char>),
                CreateExportError,
            >(CreateExportError::IdempotencyConflict)
        }),
        existing.subject@ != request.subject@ ==> existing_reply(existing, request, requester)
            == Err::<(bool, i64, i64, Seq<char>), CreateExportError>(
            CreateExportError::IdempotencyConflict,
        ),
        existing.requester_instance@ != requester ==> existing_reply(existing, request, requester)
            == Err::<(bool, i64, i64, Seq<char>), CreateExportError>(
            CreateExportError::IdempotencyConflict,
        ),
{
}

/// How each report is answered: a source rejection is `SourceRejected`; a
/// missing plan (no source, or more than `max_sources`) is a cardinality
/// fault; an encoding larger than the total bound is `ArtifactTooLarge`; a
/// stored export is reported as created with the plan's source count and the
/// artifact's item count and payload total; a lost insert reads the winner
/// back, and a winner that vanished is a fault.
pub proof fn lemma_export_answers(plan: ExportPlan, st: ExportState, event: ExportEvent)
    requires
        plan.bounds.ok(),
        export_state_ok(plan, st),
        export_awaits(st.phase, event),
    ensures
        ({
            let step = export_transition(plan, st, event).1;
            &&& event is SourceRejected ==> step == ExportStepView::Reply(
                Err(CreateExportError::SourceRejected),
            )
            &&& (event == ExportEvent::Summary(None) && st.phase == ExportPhase::AwaitSummary && (
            plan.sources.len() == 0 || plan.sources.len() > plan.max_sources)) ==> step
                == ExportStepView::Fail(Fault::SourceCardinality)
            &&& (event matches ExportEvent::Serialized(n) && n > plan.bounds.max_total_bytes) ==> step
                == ExportStepView::Reply(Err(CreateExportError::ArtifactTooLarge))
            &&& event == ExportEvent::Stored(true) ==> step == ExportStepView::Reply(
                Ok(
                    (
                        true,
                        plan.sources.len() as i64,
                        st.items.len() as i64,
                        decimal_text(payload_sum(st.items) as int),
                    ),
                ),
            )
            &&& event == ExportEvent::Stored(false) ==> step == ExportStepView::LoadSummary
                && export_transition(plan, st, event).0.phase == ExportPhase::AwaitStoredSummary
            &&& (event == ExportEvent::Summary(None) && st.phase == ExportPhase::AwaitStoredSummary)
                ==> step == ExportStepView::Fail(Fault::ConcurrentExportDisappeared)
            &&& step matches ExportStepView::Reply(Ok((created, _, _, _))) ==> (created
                <==> event == ExportEvent::Stored(true))
        }),
{
}

/// An item is accepted exactly when it is well formed, its key is new and no
/// bound would be broken, and then it is appended as contributed and its
/// UTF-8 size is added to the total. It is refused as a protocol violation
/// exactly when it is malformed or its key repeats, and as too large only
/// for a well-formed new item that would break the per-item, item-count or
/// total bound.
pub proof fn lemma_accept_item_decides_by_shape_and_bounds(
    items: Seq<ItemView>,
    total: nat,
    provider: Seq<char>,
    item: CollectExportResponseItemsItem,
    b: ExportBounds,
)
    requires
        items.len() <= b.max_items,
    ensures
        ({
            let bytes = encode_utf8(item.payload@).len();
            let well_formed = relative_path_ok(item.item_name@) && media_type_ok(item.media_type@)
                && !encode_utf8(item.payload@).contains(0u8) && !(exists|i: int|
                0 <= i < items.len() && #[trigger] items[i].0 == provider && items[i].1
                    == item.item_name@);
            let fits = bytes <= b.max_item_bytes && items.len() < b.max_items && total + bytes
                <= b.max_total_bytes;
            let r = accept_item(items, total, provider, item, b);
            &&& (r is Err) <==> !well_formed
            &&& (r == Ok::<Result<(Seq<ItemView>, nat), CreateExportError>, Fault>(
                Err(CreateExportError::ArtifactTooLarge),
            )) <==> (well_formed && !fits)
            &&& (r is Ok && r->Ok_0 is Ok) <==> (well_formed && fits)
            &&& r matches Ok(Ok((next_items, next_total))) ==> {
                &&& next_items == items.push(
                    (provider, item.item_name@, item.media_type@, item.payload@),
                )
                &&& next_total == total + bytes
            }
            &&& r matches Err(f) ==> f == Fault::ProtocolViolation(CapabilityRole::DataExportSource)
        }),
{
}

} // verus!
