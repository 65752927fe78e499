[package]
name = "streamcore"
version = "0.1.0"
edition = "2021"
publish = false

[dependencies]
serde_cbor = "=0.11.2"
regex = "=1.13.1"
tokio = { version = "=1.54.1", features = ["macros", "rt-multi-thread", "sync"] }
amqprs = "=1.8.0"
async-trait = "=0.1.92"
serde = { version = "=1.0.229", features = ["derive"] }
serde_json = "=1.0.154"
warp = { version = "=0.3.7", default-features = false, features = ["websocket"] }
reqwest = { version = "=0.11.27", default-features = false }
tokio-tungstenite = "=0.30.0"
futures = "=0.3.34"
futures-util = "=0.3.34"
chromiumoxide = { version = "=0.8.0", default-features = false, features = ["tokio-runtime"] }
twitch-irc = "=5.0.1"
trovo = "=0.6.0"
amiquip = { version = "=0.4.2", default-features = false }
