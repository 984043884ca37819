[package]
name = "mainnet_observer_backend"
version = "0.1.0"
edition = "2021"
publish = false

[dependencies]
bitcoin = "=0.32.102"
bitcoin-pool-identification = "=0.3.8"
rawtx-rs = "=0.2.0"
chrono = { version = "=0.4.45", default-features = false, features = ["alloc"] }
statrs = { version = "=0.19.1", default-features = false }
diesel = { version = "=2.3.14", features = ["sqlite", "64-column-tables"] }
diesel_migrations = "=2.3.2"
log = "=0.4.35"
serde = { version = "=1.0.229", features = ["derive"] }
serde_json = "=1.0.154"
