[package]
name = "actr_hyper"
version = "0.1.0"
edition = "2021"
publish = false

[dependencies]
anyhow = "1"
async-trait = "0.1"
bytes = "1"
ed25519-dalek = "2"
futures-util = "0.3"
hex = "0.4"
libloading = "0.8"
prost = "0.14"
serde = { version = "1", features = ["derive"] }
serde_json = "1"
sha2 = "0.10"
thiserror = "2"
tokio = { version = "1", features = ["full"] }
tokio-tungstenite = "*"
tokio-util = "0.7"
toml = "0.8"
tracing = "0.1"
url = "2"
wasmtime = "46"
webrtc = "*"
zip = { version = "*", default-features = false, features = ["deflate"] }

[dev-dependencies]
wat = "1"
