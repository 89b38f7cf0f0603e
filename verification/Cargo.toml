[package]
name = "wallet_sweeper"
version = "0.1.0"
edition = "2021"
publish = false

[dependencies]
alloy = { version = "=1.8.3", default-features = false, features = ["std", "contract", "provider-http", "signer-local", "reqwest"] }
alloy-signer-local = "=1.8.3"
chrono = "=0.4.45"
dotenv = "0.15"
hex = "=0.4.3"
hmac = "=0.12.1"
rust_decimal = "=1.43.0"
sha2 = "=0.10.9"
thiserror = "2"
tokio = { version = "1", features = ["macros", "rt-multi-thread", "time"] }
tracing = "0.1"
uuid = { version = "=1.29.0", features = ["v4"] }
