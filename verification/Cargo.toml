[package]
name = "protocol_canister"
version = "0.1.0"
edition = "2021"
publish = false

[dependencies]
rust_decimal = "*"
rust_decimal_macros = "*"
candid = "*"
ic-cdk = "*"
ic-cdk-macros = "*"
ic-cdk-timers = "*"
ic-canister-log = "*"
ic-metrics-encoder = "*"
ic-xrc-types = "*"
icrc-ledger-types = "*"
serde = { version = "*", features = ["derive"] }
serde_json = "*"
