[package]
name = "pact_graphql_plugin"
version = "0.2.0"
edition = "2021"
publish = false

[dependencies]
anyhow = "=1.0.104"
base64 = "=0.22.1"
graphql-parser = "=0.4.1"
pact-plugin-driver = "=0.7.6"
prost-types = "=0.14.4"
serde = { version = "=1.0.229", features = ["derive"] }
serde_json = { version = "=1.0.154", features = ["preserve_order"] }
sha2 = "=0.10.9"
tokio = { version = "=1.54.1", features = ["rt-multi-thread", "macros", "net", "signal"] }
tokio-stream = { version = "=0.1.19", features = ["net"] }
tonic = "=0.14.9"
tracing = "=0.1.44"
tracing-appender = "=0.2.5"
tracing-subscriber = { version = "=0.3.23", features = ["env-filter", "fmt"] }
url = "=2.5.8"
urlencoding = "=2.1.3"
uuid = { version = "=1.29.0", features = ["v4"] }
