[package]
name = "trader"
version = "0.1.0"
edition = "2021"
publish = false

[dependencies]
rust_decimal = "*"
uuid = "*"
serde_json = "*"
serde = { version = "*", features = ["derive"] }
anyhow = "*"
thiserror = "*"
again = "*"
futures = "*"
tokio = { version = "*", features = ["macros", "rt-multi-thread", "time"] }
rdkafka = "*"
tracing = "*"
tracing-subscriber = { version = "*", features = ["env-filter", "json"] }
config = "*"
dotenv = "*"
sentry = { version = "*", default-features = false }
