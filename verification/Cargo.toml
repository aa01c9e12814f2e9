[package]
name = "backend_service"
version = "0.1.0"
edition = "2021"
publish = false

[dependencies]
lexiclean = "=0.0.2"
lru = "=0.19.0"
indexmap = "=2.14.2"
csv = "=1.4.0"
percent-encoding = "=2.3.2"
rand = "=0.9.5"
tokio = { version = "=1.54.1", features = ["fs", "process", "io-util", "sync", "rt", "macros"] }
serde = { version = "=1.0.229", features = ["derive"] }
serde_json = "1"
thiserror = "=2.0.21"
async-trait = "=0.1.92"
log = "=0.4.34"
