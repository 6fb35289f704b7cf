[package]
name = "wsrpc"
version = "0.2.0"
edition = "2021"
publish = false

[dependencies]
clap = { version = "4", features = ["derive"] }
futures-util = "0.3"
http = "1"
native-tls = "0.2"
serde_json = "1"
tokio = { version = "1", features = ["full"] }
tokio-native-tls = "0.3"
tokio-tungstenite = { version = "0.21", features = ["native-tls"] }
url = "2"
