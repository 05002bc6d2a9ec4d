[package]
name = "data_governance"
version = "0.1.0"
edition = "2021"
publish = false

[dependencies]
lenso = "*"
lenso-kernel = "*"
lenso-postgres-kit = "*"
lenso-capability-secrets = "*"
lenso-contract-authoring = "*"
schemars = "*"
serde = { version = "1", features = ["derive"] }
serde_json = "1"
sqlx = { version = "*", default-features = false, features = ["postgres", "runtime-tokio", "json", "time"] }
thiserror = "*"
time = { version = "*", features = ["formatting"] }
zeroize = "*"
