//! Runtime failures the coordinator reports instead of a domain answer.

use vstd::prelude::*;

verus! {

/// The capability role whose provider broke its protocol.
#[derive(Clone, Copy, Debug, PartialEq, Eq, Structural)]
pub enum CapabilityRole {
    DataExportSource,
    RetentionGuard,
    RetentionParticipant,
}

/// A runtime failure: the resolved plan is unusable, a provider broke its
/// protocol, or the coordinator's own state is inconsistent.
#[derive(Clone, Copy, Debug, PartialEq, Eq, Structural)]
pub enum Fault {
    /// The number of bound export sources is outside the configured bounds.
    SourceCardinality,
    /// An export source has an invalid instance key.
    SourceInstanceKey,
    /// The number of bound retention participants is outside the configured bounds.
    ParticipantCardinality,
    /// The number of bound retention guards is outside the configured bounds.
    GuardCardinality,
    /// Retention guard instance keys are invalid or duplicated.
    GuardInstanceKeys,
    /// Retention participant instance keys are invalid or duplicated.
    ParticipantInstanceKeys,
    /// At activation, a binding count is outside the configured bounds.
    BindingCardinality,
    /// At activation, some instance keys are invalid or duplicated.
    BindingInstanceKeys,
    /// A provider of the given role answered outside its contract.
    ProtocolViolation(CapabilityRole),
    /// A concurrently stored export could not be read back.
    ConcurrentExportDisappeared,
    /// The guard at this plan index rejected a valid preflight request.
    GuardRejectedPreflight(usize),
    /// The retention action could not be read back after it was recorded.
    RetentionActionDisappeared,
    /// The retention action could not be read back after execution.
    RetentionActionDisappearedAfterExecution,
    /// A stored retention mode is neither `delete` nor `anonymize`.
    InvalidStoredMode,
}

} // verus!
