[package]
name = "mhrono"
version = "0.1.0"
edition = "2021"
publish = false

[dependencies]
auto_ops = "0.3"
chrono = "0.4"
chrono-tz = "0.10"
derive_more = { version = "2", features = ["display", "is_variant"] }
num-derive = "0.4"
num-traits = "0.2"
rand = "0.9"
rust_decimal = "1"
rust_decimal_macros = "1"
serde = { version = "1", features = ["derive"] }
strum = { version = "0.27", features = ["derive"] }
thiserror = "2"

[dev-dependencies]
serde_json = "1"
