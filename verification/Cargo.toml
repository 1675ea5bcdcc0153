[package]
name = "bisc"
version = "0.1.0"
edition = "2021"
publish = false

[dependencies]
sha2 = "0.10"
data-encoding = "2"
tokio = { version = "1", features = ["time", "sync", "rt", "macros", "io-util", "fs"] }
anyhow = "1"
tracing = "0.1"
tracing-subscriber = { version = "0.3", features = ["env-filter"] }
serde = { version = "1", features = ["derive"] }
postcard = { version = "1", features = ["alloc"] }
toml = "0.8"
directories = "6"
bytes = "1"
rand = "0.9"

[dev-dependencies]
tokio = { version = "1", features = ["time", "sync", "rt", "macros", "test-util"] }
