[package]
name = "pact_protobuf_plugin"
version = "0.1.0"
edition = "2021"
publish = false

[dependencies]
anyhow = "=1.0.104"
base64 = "=0.13.1"
itertools = "=0.10.5"
log = "=0.4.35"
maplit = "=1.0.2"
md5 = "=0.7.0"
pact_models = "=0.4.1"
pact-plugin-driver = "=0.1.16"
prost-types = "=0.11.9"
serde_json = { version = "=1.0.154", features = ["float_roundtrip"] }
tokio = { version = "=1.54.1", features = ["fs", "io-util"] }
# The plugin driver logs through `tracing::log`, which this feature brings in.
tracing = { version = "=0.1.44", features = ["log"] }
