//! Caller admission and the checks on the providers bound to the
//! coordinator's ports.

use vstd::prelude::*;

use crate::config::DataGovernanceConfig;
use crate::contract::{
    PurgeExportError, PurgeExportRequest, PurgeExportResponse, ReadExportError, ReadExportRequest,
    ReadRetentionError, ReadRetentionRequest,
};
use crate::fault::Fault;
use crate::text::{name_ok, valid_name};

verus! {

/// Some entry of `list` has the view `x`.
pub open spec fn listed(list: Seq<String>, x: Seq<char>) -> bool {
    exists|i: int| 0 <= i < list.len() && #[trigger] list[i]@ == x
}

/// Every key is a valid name and no key repeats.
pub open spec fn keys_ok(keys: Seq<String>) -> bool {
    &&& forall|i: int| 0 <= i < keys.len() ==> name_ok(#[trigger] keys[i]@)
    &&& forall|i: int, j: int| 0 <= i < j < keys.len() ==> #[trigger] keys[i]@ != #[trigger] keys[j]@
}

/// Whether `list` holds an entry equal to `x`.
pub fn contains_string(list: &Vec<String>, x: &String) -> (r: bool)
    ensures
        r == listed(list@, x@),
{
    let mut i: usize = 0;
    while i < list.len()
        invariant
            i <= list@.len(),
            forall|j: int| 0 <= j < i ==> list@[j]@ != x@,
        decreases list@.len() - i,
    {
        if list[i] == *x {
            return true;
        }
        i = i + 1;
    }
    false
}

/// Whether every key is a valid name and no key repeats.
pub fn valid_instance_keys(keys: &Vec<String>) -> (r: bool)
    ensures
        r == keys_ok(keys@),
{
    let n = keys.len();
    let mut i: usize = 0;
    while i < n
        invariant
            n == keys@.len(),
            i <= n,
            forall|a: int| 0 <= a < i ==> name_ok(#[trigger] keys@[a]@),
            forall|a: int, b: int| 0 <= a < b < n && a < i ==> #[trigger] keys@[a]@ != #[trigger] keys@[b]@,
        decreases n - i,
    {
        if !valid_name(keys[i].as_str()) {
            return false;
        }
        let mut j: usize = i + 1;
        while j < n
            invariant
                n == keys@.len(),
                i < j <= n,
                forall|b: int| i < b < j ==> keys@[i as int]@ != #[trigger] keys@[b]@,
            decreases n - j,
        {
            if keys[i] == keys[j] {
                return false;
            }
            j = j + 1;
        }
        i = i + 1;
    }
    true
}

/// The caller, when it is one of the allowed instances.
pub open spec fn admitted(caller: Option<Seq<char>>, allowed: Seq<String>) -> Option<Seq<char>> {
    match caller {
        Some(c) => if listed(allowed, c) {
            Some(c)
        } else {
            None
        },
        None => None,
    }
}

/// The view of an optional string.
pub open spec fn opt_view(s: Option<&str>) -> Option<Seq<char>> {
    match s {
        Some(v) => Some(v@),
        None => None,
    }
}

/// The view of an optional owned string.
pub open spec fn opt_string_view(s: Option<String>) -> Option<Seq<char>> {
    match s {
        Some(v) => Some(v@),
        None => None,
    }
}

/// Returns the calling instance when it is exactly one of the allowed ones.
pub fn allowed_caller(caller: Option<&str>, allowed: &Vec<String>) -> (r: Option<String>)
    ensures
        opt_string_view(r) == admitted(opt_view(caller), allowed@),
{
    match caller {
        Some(c) => {
            let owned = c.to_owned();
            if contains_string(allowed, &owned) {
                Some(owned)
            } else {
                None
            }
        },
        None => None,
    }
}

/// The outcome of the activation checks on the bound providers.
pub open spec fn bindings_check(
    config: DataGovernanceConfig,
    sources: Seq<String>,
    guards: Seq<String>,
    participants: Seq<String>,
) -> Result<(), Fault> {
    if sources.len() == 0 || sources.len() > config.max_sources || guards.len() > config.max_guards
        || participants.len() == 0 || participants.len() > config.max_participants {
        Err(Fault::BindingCardinality)
    } else if !keys_ok(sources) || !keys_ok(guards) || !keys_ok(participants) {
        Err(Fault::BindingInstanceKeys)
    } else {
        Ok(())
    }
}

/// Checks, at activation, the number of bound sources, guards and
/// participants against the configured bounds, and that each port's
/// instance keys are valid and distinct.
pub fn validate_bindings(
    config: &DataGovernanceConfig,
    sources: &Vec<String>,
    guards: &Vec<String>,
    participants: &Vec<String>,
) -> (r: Result<(), Fault>)
    ensures
        r == bindings_check(*config, sources@, guards@, participants@),
{
    if sources.len() == 0 || sources.len() > config.max_sources || guards.len() > config.max_guards
        || participants.len() == 0 || participants.len() > config.max_participants {
        return Err(Fault::BindingCardinality);
    }
    if !valid_instance_keys(sources) || !valid_instance_keys(guards) || !valid_instance_keys(
        participants,
    ) {
        return Err(Fault::BindingInstanceKeys);
    }
    Ok(())
}

/// Activation accepts bindings only when there are 1 to `max_sources`
/// sources, at most `max_guards` guards and 1 to `max_participants`
/// participants, each port's keys valid names with no repeats; any count
/// outside its bounds, more participants than `max_participants` among them,
/// is refused with `BindingCardinality`.
pub proof fn lemma_bindings_respect_bounds(
    config: DataGovernanceConfig,
    sources: Seq<String>,
    guards: Seq<String>,
    participants: Seq<String>,
)
    ensures
        bindings_check(config, sources, guards, participants) is Ok ==> {
            &&& 0 < sources.len() <= config.max_sources
            &&& guards.len() <= config.max_guards
            &&& 0 < participants.len() <= config.max_participants
            &&& forall|i: int| 0 <= i < participants.len() ==> name_ok(#[trigger] participants[i]@)
            &&& forall|i: int, j: int|
                0 <= i < j < participants.len() ==> #[trigger] participants[i]@
                    != #[trigger] participants[j]@
            &&& forall|i: int| 0 <= i < sources.len() ==> name_ok(#[trigger] sources[i]@)
            &&& forall|i: int, j: int|
                0 <= i < j < sources.len() ==> #[trigger] sources[i]@ != #[trigger] sources[j]@
            &&& forall|i: int| 0 <= i < guards.len() ==> name_ok(#[trigger] guards[i]@)
            &&& forall|i: int, j: int|
                0 <= i < j < guards.len() ==> #[trigger] guards[i]@ != #[trigger] guards[j]@
        },
        (sources.len() == 0 || sources.len() > config.max_sources || guards.len() > config.max_guards
            || participants.len() == 0 || participants.len() > config.max_participants)
            ==> bindings_check(config, sources, guards, participants) == Err::<(), Fault>(
            Fault::BindingCardinality,
        ),
        participants.len() > config.max_participants ==> bindings_check(
            config,
            sources,
            guards,
            participants,
        ) == Err::<(), Fault>(Fault::BindingCardinality),
{
}

/// Activation accepts exactly the bindings whose counts are within their
/// bounds and whose keys, on each port, are valid names with no repeats; a
/// count out of bounds is reported before any key problem.
pub proof fn lemma_bindings_accept_exactly(
    config: DataGovernanceConfig,
    sources: Seq<String>,
    guards: Seq<String>,
    participants: Seq<String>,
)
    ensures
        ({
            let counts_ok = 0 < sources.len() <= config.max_sources && guards.len()
                <= config.max_guards && 0 < participants.len() <= config.max_participants;
            let distinct_names = |keys: Seq<String>|
                (forall|i: int| 0 <= i < keys.len() ==> name_ok(#[trigger] keys[i]@)) && (forall|
                    i: int,
                    j: int,
                | 0 <= i < j < keys.len() ==> #[trigger] keys[i]@ != #[trigger] keys[j]@);
            let r = bindings_check(config, sources, guards, participants);
            &&& (r is Ok) <==> (counts_ok && distinct_names(sources) && distinct_names(guards)
                && distinct_names(participants))
            &&& (r == Err::<(), Fault>(Fault::BindingCardinality)) <==> !counts_ok
            &&& (r == Err::<(), Fault>(Fault::BindingInstanceKeys)) <==> (counts_ok && !(
            distinct_names(sources) && distinct_names(guards) && distinct_names(participants)))
        }),
{
}

/// A caller is admitted exactly when it is present and equal to one of the
/// allowed instances, and is then admitted as itself.
pub proof fn lemma_admission_is_exact(caller: Option<Seq<char>>, allowed: Seq<String>)
    ensures
        admitted(caller, allowed) is Some <==> (caller is Some && exists|i: int|
            0 <= i < allowed.len() && #[trigger] allowed[i]@ == caller->0),
        admitted(caller, allowed) is Some ==> admitted(caller, allowed) == caller,
{
}

/// Admits a read of an export: the caller must be allowed and the ID a name.
pub fn admit_read_export(caller: Option<String>, request: &ReadExportRequest) -> (r: Result<
    String,
    ReadExportError,
>)
    ensures
        match caller {
            None => r == Err::<String, ReadExportError>(ReadExportError::Forbidden),
            Some(c) => if name_ok(request.export_id@) {
                r matches Ok(owner) && owner@ == c@
            } else {
                r == Err::<String, ReadExportError>(ReadExportError::InvalidRequest)
            },
        },
{
    match caller {
        None => Err(ReadExportError::Forbidden),
        Some(c) => if valid_name(request.export_id.as_str()) {
            Ok(c)
        } else {
            Err(ReadExportError::InvalidRequest)
        },
    }
}

/// Admits a purge of an export: the caller must be allowed and the ID a name.
pub fn admit_purge_export(caller: Option<String>, request: &PurgeExportRequest) -> (r: Result<
    String,
    PurgeExportError,
>)
    ensures
        match caller {
            None => r == Err::<String, PurgeExportError>(PurgeExportError::Forbidden),
            Some(c) => if name_ok(request.export_id@) {
                r matches Ok(owner) && owner@ == c@
            } else {
                r == Err::<String, PurgeExportError>(PurgeExportError::InvalidRequest)
            },
        },
{
    match caller {
        None => Err(PurgeExportError::Forbidden),
        Some(c) => if valid_name(request.export_id.as_str()) {
            Ok(c)
        } else {
            Err(PurgeExportError::InvalidRequest)
        },
    }
}

/// A purge changed something exactly when one stored export was deleted.
pub fn purge_export_response(rows_affected: u64) -> (r: PurgeExportResponse)
    ensures
        r.changed == (rows_affected == 1),
{
    PurgeExportResponse { changed: rows_affected == 1 }
}

/// Admits a read of a retention action: the caller must be allowed and the
/// ID a name.
pub fn admit_read_retention(caller: Option<String>, request: &ReadRetentionRequest) -> (r: Result<
    String,
    ReadRetentionError,
>)
    ensures
        match caller {
            None => r == Err::<String, ReadRetentionError>(ReadRetentionError::Forbidden),
            Some(c) => if name_ok(request.action_id@) {
                r matches Ok(owner) && owner@ == c@
            } else {
                r == Err::<String, ReadRetentionError>(ReadRetentionError::InvalidRequest)
            },
        },
{
    match caller {
        None => Err(ReadRetentionError::Forbidden),
        Some(c) => if valid_name(request.action_id.as_str()) {
            Ok(c)
        } else {
            Err(ReadRetentionError::InvalidRequest)
        },
    }
}

} // verus!
