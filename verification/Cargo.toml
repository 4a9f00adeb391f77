[package]
name = "ledger_rs_lib"
version = "0.1.0"
edition = "2021"
publish = false

[dependencies]
chrono = { version = "=0.4.45", default-features = false, features = ["std"] }
rust_decimal = { version = "=1.43.0", default-features = false, features = ["std"] }

[dev-dependencies]
shell-words = "=1.1.1"
