[package]
name = "arti_proxy"
version = "0.1.0"
edition = "2021"
publish = false

[dependencies]
anyhow = "=1.0.104"
arti-client = { version = "=0.8.3", default-features = false, features = ["tokio", "rustls"] }
bb8 = { version = "=0.9.1", default-features = false }
fast-socks5 = { version = "=1.0.0", default-features = false }
tokio = { version = "=1.54.1", features = ["io-util", "macros", "net", "rt-multi-thread", "time"] }
tor-rtcompat = { version = "=0.8.2", default-features = false, features = ["tokio", "rustls"] }
tracing = { version = "=0.1.44", default-features = false, features = ["std"] }
tracing-subscriber = { version = "=0.3.23", default-features = false, features = ["env-filter", "fmt"] }
