[package]
name = "cdk_gateway"
version = "0.1.0"
edition = "2021"
publish = false

[dependencies]
anyhow = "=1.0.104"
axum = "=0.8.9"
bip39 = "=2.2.2"
cdk = { version = "=0.12.1", default-features = false, features = ["wallet"] }
cdk-common = "=0.12.1"
cdk-payment-processor = { version = "=0.12.1", default-features = false }
cdk-redb = "=0.12.1"
ciborium = "=0.2.2"
config = { version = "=0.15.27", default-features = false, features = ["toml"] }
ctrlc = "=3.5.2"
home = "=0.5.12"
serde = { version = "=1.0.229", features = ["derive"] }
tokio = { version = "=1.54.1", features = ["rt-multi-thread", "net", "macros"] }
tokio-util = "=0.7.20"
tracing = "=0.1.44"
tracing-subscriber = { version = "=0.3.23", features = ["env-filter"] }
