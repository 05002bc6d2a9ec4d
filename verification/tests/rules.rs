use data_governance::config::{default_max_guards, DataGovernanceConfig, DataGovernanceConfigError};
use data_governance::contract::{PurgeExportError, PurgeExportRequest, ReadExportError, ReadExportRequest, ReadRetentionError, ReadRetentionRequest};
use data_governance::fault::Fault;
use data_governance::plugin::{
    admit_purge_export, admit_read_export, admit_read_retention, allowed_caller,
    purge_export_response, validate_bindings,
};
use data_governance::text::{
    decimal, trim, valid_dimension, valid_item_name, valid_media_type, valid_name,
    valid_request_identity, valid_schema_name, valid_secret_reference, valid_text,
};

fn strings(values: &[&str]) -> Vec<String> {
    values.iter().map(|value| (*value).to_owned()).collect()
}

fn config_with(
    schema: &str,
    secret: &str,
    export_callers: Vec<String>,
    retention_callers: Vec<String>,
    limits: (usize, usize, usize, usize, usize),
) -> Result<DataGovernanceConfig, DataGovernanceConfigError> {
    DataGovernanceConfig::new(
        schema,
        secret,
        export_callers,
        retention_callers,
        limits.0,
        limits.1,
        limits.2,
        limits.3,
        limits.4,
    )
}

const LIMITS: (usize, usize, usize, usize, usize) = (8, 8, 64, 262_144, 1_048_576);

#[test]
fn names_are_short_ascii_identifiers() {
    assert!(valid_name("privacy-service"));
    assert!(valid_name("guard_1:decision.2"));
    assert!(!valid_name(""));
    assert!(!valid_name("has space"));
    assert!(!valid_name("caf\u{e9}"));
    assert!(valid_name(&"a".repeat(256)));
    assert!(!valid_name(&"a".repeat(257)));
}

#[test]
fn dimensions_do_not_start_or_end_with_a_dot() {
    assert!(valid_dimension("organization"));
    assert!(valid_dimension("org.unit"));
    assert!(!valid_dimension(".organization"));
    assert!(!valid_dimension("organization."));
    assert!(!valid_dimension(""));
}

#[test]
fn item_names_are_relative_paths_without_dot_segments() {
    assert!(valid_item_name("profile.json"));
    assert!(valid_item_name("exports/profile.json"));
    assert!(valid_item_name("a/.hidden/..b"));
    assert!(!valid_item_name("/profile.json"));
    assert!(!valid_item_name("exports/"));
    assert!(!valid_item_name("exports//profile.json"));
    assert!(!valid_item_name("./profile.json"));
    assert!(!valid_item_name("exports/.."));
    assert!(!valid_item_name("."));
    assert!(!valid_item_name("exports/profile:json"));
    assert!(!valid_item_name(""));
    assert!(!valid_item_name(&"a".repeat(257)));
}

#[test]
fn secret_references_follow_the_relative_path_rule() {
    assert!(valid_secret_reference("data-governance/database"));
    assert!(!valid_secret_reference("data-governance/../database"));
    assert!(!valid_secret_reference("/database"));
}

#[test]
fn media_types_have_exactly_one_slash_between_two_parts() {
    assert!(valid_media_type("application/json"));
    assert!(valid_media_type("application/vnd.api+json"));
    assert!(!valid_media_type("applicationjson"));
    assert!(!valid_media_type("/json"));
    assert!(!valid_media_type("application/"));
    assert!(!valid_media_type("application/json/extra"));
    assert!(!valid_media_type("application/json; charset=utf-8"));
    let long = format!("application/{}", "x".repeat(117));
    assert_eq!(long.len(), 129);
    assert!(!valid_media_type(&long));
    assert!(valid_media_type(&long[..128]));
}

#[test]
fn owned_schema_names_follow_the_postgres_kit_rule() {
    assert!(valid_schema_name("data_governance"));
    assert!(valid_schema_name("orders2"));
    for name in ["", "public", "information_schema", "pg_catalog", "Orders", "orders-module", "1orders", "_orders"] {
        assert!(!valid_schema_name(name), "{name}");
    }
    assert!(valid_schema_name(&"a".repeat(63)));
    assert!(!valid_schema_name(&"a".repeat(64)));
    assert!(valid_schema_name("pg"));
}

#[test]
fn request_identity_checks_each_field() {
    assert!(valid_request_identity("exp_1", "organization", "org_acme", "usr_1"));
    assert!(!valid_request_identity("", "organization", "org_acme", "usr_1"));
    assert!(!valid_request_identity("exp_1", ".organization", "org_acme", "usr_1"));
    assert!(!valid_request_identity("exp_1", "organization", "org acme", "usr_1"));
    assert!(!valid_request_identity("exp_1", "organization", "org_acme", ""));
}

#[test]
fn trim_removes_unicode_whitespace_at_both_ends() {
    assert_eq!(trim("  account closure \t\n"), "account closure");
    assert_eq!(trim("\u{3000}x y\u{2029}"), "x y");
    assert_eq!(trim(" \t "), "");
    assert_eq!(trim(""), "");
    assert_eq!(trim("inner  space"), "inner  space");
}

#[test]
fn free_text_is_non_blank_bounded_and_free_of_controls() {
    assert!(valid_text("account closure", 512));
    assert!(!valid_text("   ", 512));
    assert!(!valid_text("", 512));
    assert!(!valid_text("line\nbreak", 512));
    assert!(!valid_text("del\u{7f}", 512));
    assert!(!valid_text("c1\u{85}", 512));
    assert!(valid_text(&"r".repeat(512), 512));
    assert!(!valid_text(&"r".repeat(513), 512));
    // the bound counts UTF-8 bytes: 171 three-byte characters are 513 bytes
    assert!(!valid_text(&"\u{20ac}".repeat(171), 512));
    assert!(valid_text(&"\u{20ac}".repeat(170), 512));
}

#[test]
fn decimal_matches_to_string() {
    for value in [0_i64, 7, 10, 42, 1_048_576, -1, -907, i64::MAX, i64::MIN] {
        assert_eq!(decimal(value), value.to_string());
    }
}

#[test]
fn default_guard_bound_is_sixteen() {
    assert_eq!(default_max_guards(), 16);
    let config = config_with(
        "data_governance",
        "data-governance/database",
        strings(&["privacy-service"]),
        strings(&["privacy-admin"]),
        LIMITS,
    )
    .unwrap();
    assert_eq!(config.max_guards, 16);
    assert_eq!(config.schema, "data_governance");
    assert_eq!(config.validate(), Ok(()));
}

#[test]
fn each_configuration_error_has_its_input() {
    let exports = || strings(&["privacy-service"]);
    let retentions = || strings(&["privacy-admin"]);
    assert_eq!(
        config_with("public", "data-governance/database", exports(), retentions(), LIMITS).unwrap_err(),
        DataGovernanceConfigError::InvalidSchema
    );
    assert_eq!(
        config_with("data_governance", "/database", exports(), retentions(), LIMITS).unwrap_err(),
        DataGovernanceConfigError::InvalidSecretReference
    );
    assert_eq!(
        config_with("data_governance", "db", Vec::new(), retentions(), LIMITS).unwrap_err(),
        DataGovernanceConfigError::InvalidExportCallers
    );
    assert_eq!(
        config_with("data_governance", "db", strings(&["bad caller"]), retentions(), LIMITS).unwrap_err(),
        DataGovernanceConfigError::InvalidExportCallers
    );
    assert_eq!(
        config_with("data_governance", "db", exports(), strings(&["ok", ""]), LIMITS).unwrap_err(),
        DataGovernanceConfigError::InvalidRetentionCallers
    );
    for limits in [
        (0, 8, 64, 1, 1),
        (65, 8, 64, 1, 1),
        (8, 0, 64, 1, 1),
        (8, 65, 64, 1, 1),
        (8, 8, 0, 1, 1),
        (8, 8, 513, 1, 1),
        (8, 8, 64, 0, 1),
        (8, 8, 64, 1_048_577, 16_777_216),
        (8, 8, 64, 1, 0),
        (8, 8, 64, 1, 16_777_217),
    ] {
        assert_eq!(
            config_with("data_governance", "db", exports(), retentions(), limits).unwrap_err(),
            DataGovernanceConfigError::InvalidLimits
        );
    }
    assert!(config_with("data_governance", "db", exports(), retentions(), (64, 64, 512, 1_048_576, 16_777_216)).is_ok());
    let mut config = config_with("data_governance", "db", exports(), retentions(), LIMITS).unwrap();
    config.max_guards = 65;
    assert_eq!(config.validate(), Err(DataGovernanceConfigError::InvalidLimits));
}

#[test]
fn configuration_errors_describe_themselves() {
    assert_eq!(DataGovernanceConfigError::InvalidSchema.message(), "invalid owned PostgreSQL schema");
    assert_eq!(DataGovernanceConfigError::InvalidSecretReference.message(), "invalid database URL secret reference");
    assert_eq!(DataGovernanceConfigError::InvalidExportCallers.message(), "at least one valid Data Export caller is required");
    assert_eq!(DataGovernanceConfigError::InvalidRetentionCallers.message(), "at least one valid Retention caller is required");
    assert_eq!(DataGovernanceConfigError::InvalidLimits.message(), "bounded inline export limits are invalid");
}

#[test]
fn only_exactly_allowed_callers_are_admitted() {
    let allowed = strings(&["privacy-service", "privacy-admin"]);
    assert_eq!(allowed_caller(Some("privacy-admin"), &allowed), Some("privacy-admin".to_owned()));
    assert_eq!(allowed_caller(Some("privacy"), &allowed), None);
    assert_eq!(allowed_caller(Some("privacy-admin "), &allowed), None);
    assert_eq!(allowed_caller(None, &allowed), None);
}

#[test]
fn activation_checks_binding_counts_and_keys() {
    let config = config_with("data_governance", "db", strings(&["a"]), strings(&["b"]), (2, 2, 8, 1, 1)).unwrap();
    let one = strings(&["one"]);
    assert_eq!(validate_bindings(&config, &one, &Vec::new(), &one), Ok(()));
    assert_eq!(validate_bindings(&config, &Vec::new(), &Vec::new(), &one), Err(Fault::BindingCardinality));
    assert_eq!(validate_bindings(&config, &strings(&["a", "b", "c"]), &Vec::new(), &one), Err(Fault::BindingCardinality));
    assert_eq!(validate_bindings(&config, &one, &Vec::new(), &Vec::new()), Err(Fault::BindingCardinality));
    let mut guards = strings(&["g"; 17]);
    assert_eq!(validate_bindings(&config, &one, &guards, &one), Err(Fault::BindingCardinality));
    guards.truncate(2);
    assert_eq!(validate_bindings(&config, &one, &guards, &one), Err(Fault::BindingInstanceKeys));
    assert_eq!(validate_bindings(&config, &strings(&["bad key"]), &Vec::new(), &one), Err(Fault::BindingInstanceKeys));
    assert_eq!(validate_bindings(&config, &one, &Vec::new(), &strings(&["p", "p"])), Err(Fault::BindingInstanceKeys));
}

#[test]
fn reads_and_purges_are_admitted_by_caller_then_by_id() {
    let read = ReadExportRequest { export_id: "exp_1".to_owned() };
    assert_eq!(admit_read_export(None, &read), Err(ReadExportError::Forbidden));
    assert_eq!(admit_read_export(Some("svc".to_owned()), &read), Ok("svc".to_owned()));
    let bad = ReadExportRequest { export_id: "exp 1".to_owned() };
    assert_eq!(admit_read_export(Some("svc".to_owned()), &bad), Err(ReadExportError::InvalidRequest));
    assert_eq!(admit_read_export(None, &bad), Err(ReadExportError::Forbidden));

    let purge = PurgeExportRequest { export_id: String::new() };
    assert_eq!(admit_purge_export(Some("svc".to_owned()), &purge), Err(PurgeExportError::InvalidRequest));
    assert_eq!(admit_purge_export(None, &purge), Err(PurgeExportError::Forbidden));
    assert_eq!(purge_export_response(1).changed, true);
    assert_eq!(purge_export_response(0).changed, false);
    assert_eq!(purge_export_response(2).changed, false);

    let retention = ReadRetentionRequest { action_id: "ret_1".to_owned() };
    assert_eq!(admit_read_retention(Some("adm".to_owned()), &retention), Ok("adm".to_owned()));
    assert_eq!(admit_read_retention(None, &retention), Err(ReadRetentionError::Forbidden));
    let bad = ReadRetentionRequest { action_id: "ret/1".to_owned() };
    assert_eq!(admit_read_retention(Some("adm".to_owned()), &bad), Err(ReadRetentionError::InvalidRequest));
}
