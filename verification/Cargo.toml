[package]
name = "arbitrage_detector"
version = "0.1.0"
edition = "2021"
publish = false

[dependencies]
uniswap_v3_math = "*"
alloy-primitives = "*"
tokio = { version = "*", features = ["rt-multi-thread", "macros", "time", "sync"] }
tokio-tungstenite = "*"
futures = "*"
serde = { version = "*", features = ["derive"] }
serde_json = "*"
url = "*"
tracing = "*"
tracing-subscriber = { version = "*", features = ["env-filter"] }
dotenvy = "*"
thiserror = "*"
reqwest = { version = "*", default-features = false, features = ["json", "rustls-tls"] }
