# data_governance

The decision logic of a data-governance coordinator that builds bounded
inline data exports and runs recoverable, guarded multi-participant
retention actions, verified with Verus.

* `src/` is the verified library:
  * `text` holds the validation rules for names, dimensions, relative paths,
    media types, schema names and free text (with `trim`) and decimal
    formatting.
  * `contract` holds the request, response and error types of the five
    capabilities.
  * `config` holds the configuration and its validation.
  * `export` holds the export artifact bounds and the `CreateExportRun` state
    machine.
  * `retention` holds the action identity, the participant outcome report and
    the `ExecuteRetentionRun` state machine.
  * `plugin` holds caller admission and the activation checks.
  * `fault` holds the runtime failures.
* `app/` is the unverified driver. It runs the state machines against
  PostgreSQL (`sqlx`, `lenso-postgres-kit`) and the bound providers, resolves
  the database secret, and holds the serde forms of the configuration and the
  export items.
* `tests/` holds the tests.
