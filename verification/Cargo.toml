[package]
name = "mqtt-endpoint-tokio"
version = "0.1.0"
edition = "2021"
publish = false

[dependencies]
mqtt-protocol-core = "=0.7.9"
serde = "=1.0.229"
tokio = { version = "=1.54.1", features = ["rt-multi-thread", "macros", "sync", "time", "net", "io-util"] }
futures-util = { version = "0.3", default-features = false, features = ["sink", "std"] }
rustls = { version = "0.23", default-features = false, features = ["ring", "std", "tls12", "logging"] }
rustls-native-certs = "0.8"
tokio-rustls = { version = "0.26", default-features = false, features = ["ring", "tls12", "logging"] }
tokio-tungstenite = "0.24"
tungstenite = "0.24"
quinn = { version = "0.11", default-features = false, features = ["runtime-tokio", "rustls-ring", "log"] }
