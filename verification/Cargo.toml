[package]
name = "rust_search"
version = "0.1.0"
edition = "2021"
publish = false

[dependencies]
tantivy = "=0.19.2"
bincode = "=1.3.3"
serde_json = "1"
serde = { version = "1", features = ["derive"] }
tokio = { version = "1", features = ["rt-multi-thread", "macros", "signal"] }
warp = "0.3"

[dev-dependencies]
tempfile = "3"
