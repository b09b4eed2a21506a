[package]
name = "djls_semantic"
version = "0.1.0"
edition = "2021"
publish = false

[dependencies]
camino = "=1.2.6"
dotenvy = "=0.15.7"
ignore = "=0.4.34"
rustc-hash = "=2.1.3"
serde = { version = "=1.0.229", features = ["derive"] }
serde_json = "=1.0.154"
sha2 = "=0.10.9"
tracing = "=0.1.44"
