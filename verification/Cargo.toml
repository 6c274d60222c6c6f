[package]
name = "localshare"
version = "0.1.1"
edition = "2021"
publish = false

[dependencies]
url = "2"
httparse = "1"
qrcode = { version = "0.14", default-features = false }
anyhow = "1"
clap = { version = "4", features = ["derive", "env"] }
colored = "2"
futures-util = { version = "0.3", features = ["sink"] }
rand = "0.8"
serde = { version = "1", features = ["derive"] }
serde_json = "1"
serde_bytes = "0.11"
thiserror = "1"
tokio = { version = "1", features = ["full"] }
tokio-tungstenite = "0.21"
tokio-util = "0.7"
tracing = "0.1"
tracing-subscriber = { version = "0.3", features = ["env-filter"] }
tungstenite = "0.21"
