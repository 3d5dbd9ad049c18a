[package]
name = "rustatio"
version = "0.1.0"
edition = "2021"
publish = false

[dependencies]
chrono = { version = "0.4", default-features = false, features = ["std"] }
nanoid = "=0.4.0"
rand = "=0.9.5"
reqwest = { version = "=0.12.28", default-features = false }
serde = { version = "=1.0.229", features = ["derive"] }
serde_bencode = "=0.2.4"
serde_json = "=1.0.154"
sha1 = "=0.10.7"
tokio = { version = "=1.54.1", features = ["macros", "rt-multi-thread", "sync", "time"] }
url = "=2.5.8"
