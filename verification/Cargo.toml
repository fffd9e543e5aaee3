[package]
name = "cobalt"
version = "0.1.0"
edition = "2021"
publish = false

[dependencies]
base64 = "=0.22.1"
sha2 = "=0.10.9"
rand = "=0.8.8"
url = "=2.5.8"
serde = { version = "=1.0.229", features = ["derive"] }
serde_json = "=1.0.154"
chrono = "=0.4.45"
thiserror = "=1.0.69"
tiny_http = "=0.12.0"
directories = "=5.0.1"
keyring = { version = "=3.6.3", features = ["apple-native", "windows-native", "linux-native"] }
tracing = "=0.1.44"
open = "=5.4.5"
tokio = { version = "=1.54.1", features = ["rt-multi-thread", "macros", "time", "sync"] }
reqwest = { version = "=0.12.28", default-features = false, features = ["rustls-tls", "json"] }
crossbeam-channel = "=0.5.17"
azure_core = { version = "=1.1.0", default-features = false }
azure_identity = { version = "=1.0.0", default-features = false }
arrow-schema = { version = "=60.1.0", default-features = false }
