[package]
name = "lynara"
version = "0.1.0"
edition = "2021"
publish = false

[dependencies]
dirs = "6"
sha1 = "0.10"
hex = "0.4"
serde = { version = "1", features = ["derive"] }
serde_json = "1"
reqwest = { version = "0.12", default-features = false, features = ["json", "stream", "rustls-tls"] }
tokio = { version = "1", features = ["fs", "io-util", "process", "rt-multi-thread", "macros", "sync", "time"] }
futures-util = "0.3"
zip = { version = "2", default-features = false, features = ["deflate"] }
keyring = { version = "3", features = ["apple-native", "windows-native", "linux-native"] }
anyhow = "1"
thiserror = "2"
