[package]
name = "vault"
version = "0.1.0"
edition = "2021"
publish = false

[dependencies]
age = "=0.11.5"
bech32 = "=0.9.1"
bson = "=2.15.0"
sysinfo = "=0.29.11"
serde = { version = "=1.0.229", features = ["derive"] }
mongodb = "=2.8.2"
tokio = { version = "=1.54.1", features = ["macros", "rt-multi-thread"] }
tonic = "=0.10.2"
