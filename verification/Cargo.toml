[package]
name = "srad"
version = "0.1.0"
edition = "2021"
publish = false

[dependencies]
tokio = { version = "1", features = ["rt-multi-thread", "macros", "sync", "time"] }
rumqttc = { version = "0.24", default-features = false }
prost = "0.13"
async-trait = "0.1"
log = "0.4"
futures = "0.3"
thiserror = "2"
