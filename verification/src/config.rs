//! Configuration of the data-governance coordinator and its validation.

use vstd::prelude::*;

use crate::text::{
    name_ok, relative_path_ok, schema_name_ok, valid_name, valid_schema_name,
    valid_secret_reference,
};

verus! {

/// Guards bound when the configuration does not say.
pub const DEFAULT_MAX_GUARDS: usize = 16;

/// The default bound on retention guards.
pub fn default_max_guards() -> (r: usize)
    ensures
        r == DEFAULT_MAX_GUARDS,
{
    DEFAULT_MAX_GUARDS
}

/// Static configuration of the coordinator.
#[derive(Clone, Debug, PartialEq, Eq)]
pub struct DataGovernanceConfig {
    pub schema: String,
    pub database_url_secret: String,
    pub export_callers: Vec<String>,
    pub retention_callers: Vec<String>,
    pub max_sources: usize,
    pub max_guards: usize,
    pub max_participants: usize,
    pub max_items: usize,
    pub max_item_bytes: usize,
    pub max_total_bytes: usize,
}

/// Why a configuration is refused.
#[derive(Clone, Copy, Debug, PartialEq, Eq, Structural)]
pub enum DataGovernanceConfigError {
    InvalidSchema,
    InvalidSecretReference,
    InvalidExportCallers,
    InvalidRetentionCallers,
    InvalidLimits,
}

impl DataGovernanceConfigError {
    /// The human-readable description of the error.
    pub fn message(&self) -> (r: &'static str)
        ensures
            r@ == spec_config_error_message(*self),
    {
        proof {
            reveal_strlit("invalid owned PostgreSQL schema");
            reveal_strlit("invalid database URL secret reference");
            reveal_strlit("at least one valid Data Export caller is required");
            reveal_strlit("at least one valid Retention caller is required");
            reveal_strlit("bounded inline export limits are invalid");
        }
        match self {
            DataGovernanceConfigError::InvalidSchema => "invalid owned PostgreSQL schema",
            DataGovernanceConfigError::InvalidSecretReference => "invalid database URL secret reference",
            DataGovernanceConfigError::InvalidExportCallers => "at least one valid Data Export caller is required",
            DataGovernanceConfigError::InvalidRetentionCallers => "at least one valid Retention caller is required",
            DataGovernanceConfigError::InvalidLimits => "bounded inline export limits are invalid",
        }
    }
}

/// The description of each configuration error.
pub open spec fn spec_config_error_message(e: DataGovernanceConfigError) -> Seq<char> {
    match e {
        DataGovernanceConfigError::InvalidSchema => "invalid owned PostgreSQL schema"@,
        DataGovernanceConfigError::InvalidSecretReference => "invalid database URL secret reference"@,
        DataGovernanceConfigError::InvalidExportCallers => "at least one valid Data Export caller is required"@,
        DataGovernanceConfigError::InvalidRetentionCallers => "at least one valid Retention caller is required"@,
        DataGovernanceConfigError::InvalidLimits => "bounded inline export limits are invalid"@,
    }
}

/// A non-empty list of callers, each a valid instance name.
pub open spec fn callers_ok(callers: Seq<String>) -> bool {
    &&& callers.len() > 0
    &&& forall|i: int| 0 <= i < callers.len() ==> name_ok(#[trigger] callers[i]@)
}

/// The cardinality and size bounds are within their hard ceilings and the
/// per-item bound does not exceed the total bound.
pub open spec fn limits_ok(
    max_sources: usize,
    max_guards: usize,
    max_participants: usize,
    max_items: usize,
    max_item_bytes: usize,
    max_total_bytes: usize,
) -> bool {
    &&& 1 <= max_sources <= 64
    &&& max_guards <= 64
    &&& 1 <= max_participants <= 64
    &&& 1 <= max_items <= 512
    &&& 1 <= max_item_bytes <= 1_048_576
    &&& 1 <= max_total_bytes <= 16_777_216
    &&& max_item_bytes <= max_total_bytes
}

/// The first check a configuration fails, in the order the coordinator
/// checks them, or `Ok` when it passes all of them.
pub open spec fn config_check(
    schema: Seq<char>,
    database_url_secret: Seq<char>,
    export_callers: Seq<String>,
    retention_callers: Seq<String>,
    max_sources: usize,
    max_guards: usize,
    max_participants: usize,
    max_items: usize,
    max_item_bytes: usize,
    max_total_bytes: usize,
) -> Result<(), DataGovernanceConfigError> {
    if !schema_name_ok(schema) {
        Err(DataGovernanceConfigError::InvalidSchema)
    } else if !relative_path_ok(database_url_secret) {
        Err(DataGovernanceConfigError::InvalidSecretReference)
    } else if !callers_ok(export_callers) {
        Err(DataGovernanceConfigError::InvalidExportCallers)
    } else if !callers_ok(retention_callers) {
        Err(DataGovernanceConfigError::InvalidRetentionCallers)
    } else if !limits_ok(
        max_sources,
        max_guards,
        max_participants,
        max_items,
        max_item_bytes,
        max_total_bytes,
    ) {
        Err(DataGovernanceConfigError::InvalidLimits)
    } else {
        Ok(())
    }
}

fn valid_callers(callers: &Vec<String>) -> (r: bool)
    ensures
        r == callers_ok(callers@),
{
    if callers.len() == 0 {
        return false;
    }
    let mut i: usize = 0;
    while i < callers.len()
        invariant
            i <= callers@.len(),
            forall|j: int| 0 <= j < i ==> name_ok(#[trigger] callers@[j]@),
        decreases callers@.len() - i,
    {
        if !valid_name(callers[i].as_str()) {
            return false;
        }
        i = i + 1;
    }
    true
}

impl DataGovernanceConfig {
    /// The result of validating this configuration.
    pub open spec fn check(&self) -> Result<(), DataGovernanceConfigError> {
        config_check(
            self.schema@,
            self.database_url_secret@,
            self.export_callers@,
            self.retention_callers@,
            self.max_sources,
            self.max_guards,
            self.max_participants,
            self.max_items,
            self.max_item_bytes,
            self.max_total_bytes,
        )
    }

    /// The configuration passes validation.
    pub open spec fn valid(&self) -> bool {
        self.check() is Ok
    }

    /// Builds a configuration with the default guard bound, and validates it.
    pub fn new(
        schema: &str,
        database_url_secret: &str,
        export_callers: Vec<String>,
        retention_callers: Vec<String>,
        max_sources: usize,
        max_participants: usize,
        max_items: usize,
        max_item_bytes: usize,
        max_total_bytes: usize,
    ) -> (r: Result<Self, DataGovernanceConfigError>)
        ensures
            ({
                let check = config_check(
                    schema@,
                    database_url_secret@,
                    export_callers@,
                    retention_callers@,
                    max_sources,
                    DEFAULT_MAX_GUARDS,
                    max_participants,
                    max_items,
                    max_item_bytes,
                    max_total_bytes,
                );
                match r {
                    Ok(config) => {
                        &&& check is Ok
                        &&& config.schema@ == schema@
                        &&& config.database_url_secret@ == database_url_secret@
                        &&& config.export_callers@ == export_callers@
                        &&& config.retention_callers@ == retention_callers@
                        &&& config.max_sources == max_sources
                        &&& config.max_guards == DEFAULT_MAX_GUARDS
                        &&& config.max_participants == max_participants
                        &&& config.max_items == max_items
                        &&& config.max_item_bytes == max_item_bytes
                        &&& config.max_total_bytes == max_total_bytes
                        &&& config.valid()
                    },
                    Err(e) => check == Err::<(), DataGovernanceConfigError>(e),
                }
            }),
    {
        let value = DataGovernanceConfig {
            schema: schema.to_owned(),
            database_url_secret: database_url_secret.to_owned(),
            export_callers,
            retention_callers,
            max_sources,
            max_guards: DEFAULT_MAX_GUARDS,
            max_participants,
            max_items,
            max_item_bytes,
            max_total_bytes,
        };
        match value.validate() {
            Ok(()) => Ok(value),
            Err(e) => Err(e),
        }
    }

    /// Validates the configuration, reporting the first check it fails.
    pub fn validate(&self) -> (r: Result<(), DataGovernanceConfigError>)
        ensures
            r == self.check(),
    {
        if !valid_schema_name(self.schema.as_str()) {
            return Err(DataGovernanceConfigError::InvalidSchema);
        }
        if !valid_secret_reference(self.database_url_secret.as_str()) {
            return Err(DataGovernanceConfigError::InvalidSecretReference);
        }
        if !valid_callers(&self.export_callers) {
            return Err(DataGovernanceConfigError::InvalidExportCallers);
        }
        if !valid_callers(&self.retention_callers) {
            return Err(DataGovernanceConfigError::InvalidRetentionCallers);
        }
        if !(1 <= self.max_sources && self.max_sources <= 64) || self.max_guards > 64 || !(1
            <= self.max_participants && self.max_participants <= 64) || !(1 <= self.max_items
            && self.max_items <= 512) || !(1 <= self.max_item_bytes && self.max_item_bytes
            <= 1_048_576) || !(1 <= self.max_total_bytes && self.max_total_bytes <= 16_777_216)
            || self.max_item_bytes > self.max_total_bytes {
            return Err(DataGovernanceConfigError::InvalidLimits);
        }
        Ok(())
    }
}

/// A configuration passes validation only with a valid owned schema name, a
/// valid secret reference, at least one export caller and at least one
/// retention caller, each a valid name, and limits within their ceilings;
/// and once the schema, secret reference and export callers are valid, an
/// empty or invalid retention caller list is refused with
/// `InvalidRetentionCallers`.
pub proof fn lemma_valid_config_has_callers_and_bounds(
    schema: Seq<char>,
    database_url_secret: Seq<char>,
    export_callers: Seq<String>,
    retention_callers: Seq<String>,
    max_sources: usize,
    max_guards: usize,
    max_participants: usize,
    max_items: usize,
    max_item_bytes: usize,
    max_total_bytes: usize,
)
    ensures
        config_check(
            schema,
            database_url_secret,
            export_callers,
            retention_callers,
            max_sources,
            max_guards,
            max_participants,
            max_items,
            max_item_bytes,
            max_total_bytes,
        ) is Ok ==> {
            &&& schema_name_ok(schema)
            &&& relative_path_ok(database_url_secret)
            &&& export_callers.len() > 0
            &&& forall|i: int| 0 <= i < export_callers.len() ==> name_ok(#[trigger] export_callers[i]@)
            &&& retention_callers.len() > 0
            &&& forall|i: int|
                0 <= i < retention_callers.len() ==> name_ok(#[trigger] retention_callers[i]@)
            &&& 1 <= max_sources <= 64
            &&& max_guards <= 64
            &&& 1 <= max_participants <= 64
            &&& 1 <= max_items <= 512
            &&& 1 <= max_item_bytes <= 1_048_576
            &&& max_item_bytes <= max_total_bytes
            &&& max_total_bytes <= 16_777_216
        },
        (schema_name_ok(schema) && relative_path_ok(database_url_secret) && export_callers.len() > 0
            && (forall|i: int| 0 <= i < export_callers.len() ==> name_ok(#[trigger] export_callers[i]@))
            && (retention_callers.len() == 0 || exists|i: int|
            0 <= i < retention_callers.len() && !name_ok(#[trigger] retention_callers[i]@)))
            ==> config_check(
            schema,
            database_url_secret,
            export_callers,
            retention_callers,
            max_sources,
            max_guards,
            max_participants,
            max_items,
            max_item_bytes,
            max_total_bytes,
        ) == Err::<(), DataGovernanceConfigError>(DataGovernanceConfigError::InvalidRetentionCallers),
{
}

/// Validation accepts every configuration whose schema name, secret
/// reference, caller lists and limits are all valid, and reports which part
/// fails first otherwise: the schema name, then the secret reference, then
/// the export callers, then the retention callers, then the limits.
pub proof fn lemma_config_check_order(
    schema: Seq<char>,
    database_url_secret: Seq<char>,
    export_callers: Seq<String>,
    retention_callers: Seq<String>,
    max_sources: usize,
    max_guards: usize,
    max_participants: usize,
    max_items: usize,
    max_item_bytes: usize,
    max_total_bytes: usize,
)
    ensures
        ({
            let r = config_check(
                schema,
                database_url_secret,
                export_callers,
                retention_callers,
                max_sources,
                max_guards,
                max_participants,
                max_items,
                max_item_bytes,
                max_total_bytes,
            );
            let exports_ok = export_callers.len() > 0 && forall|i: int|
                0 <= i < export_callers.len() ==> name_ok(#[trigger] export_callers[i]@);
            let retentions_ok = retention_callers.len() > 0 && forall|i: int|
                0 <= i < retention_callers.len() ==> name_ok(#[trigger] retention_callers[i]@);
            let bounds_ok = 1 <= max_sources <= 64 && max_guards <= 64 && 1 <= max_participants
                <= 64 && 1 <= max_items <= 512 && 1 <= max_item_bytes <= 1_048_576 && max_item_bytes
                <= max_total_bytes && max_total_bytes <= 16_777_216;
            &&& (r == Err::<(), DataGovernanceConfigError>(DataGovernanceConfigError::InvalidSchema))
                <==> !schema_name_ok(schema)
            &&& (r == Err::<(), DataGovernanceConfigError>(
                DataGovernanceConfigError::InvalidSecretReference,
            )) <==> (schema_name_ok(schema) && !relative_path_ok(database_url_secret))
            &&& (r == Err::<(), DataGovernanceConfigError>(
                DataGovernanceConfigError::InvalidExportCallers,
            )) <==> (schema_name_ok(schema) && relative_path_ok(database_url_secret)
                && !exports_ok)
            &&& (r == Err::<(), DataGovernanceConfigError>(
                DataGovernanceConfigError::InvalidRetentionCallers,
            )) <==> (schema_name_ok(schema) && relative_path_ok(database_url_secret) && exports_ok
                && !retentions_ok)
            &&& (r == Err::<(), DataGovernanceConfigError>(DataGovernanceConfigError::InvalidLimits))
                <==> (schema_name_ok(schema) && relative_path_ok(database_url_secret) && exports_ok
                && retentions_ok && !bounds_ok)
            &&& (r is Ok) <==> (schema_name_ok(schema) && relative_path_ok(database_url_secret)
                && exports_ok && retentions_ok && bounds_ok)
        }),
{
    assert(callers_ok(export_callers) == (export_callers.len() > 0 && forall|i: int|
        0 <= i < export_callers.len() ==> name_ok(#[trigger] export_callers[i]@)));
    assert(callers_ok(retention_callers) == (retention_callers.len() > 0 && forall|i: int|
        0 <= i < retention_callers.len() ==> name_ok(#[trigger] retention_callers[i]@)));
}

} // verus!
