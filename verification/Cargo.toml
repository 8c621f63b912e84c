[package]
name = "r55"
version = "0.1.0"
edition = "2021"
publish = false

[dependencies]
alloy-core = "0.8"
alloy-sol-types = "0.8"
eyre = "0.6"
pathdiff = "0.2"
revm = { version = "14", default-features = false, features = ["std"] }
syn = { version = "1", features = ["full"] }
thiserror = "1"
toml = "0.8"
tracing = "0.1"
tracing-subscriber = { version = "0.3", features = ["env-filter"] }
