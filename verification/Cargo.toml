[package]
name = "kvtable"
version = "0.1.0"
edition = "2021"
publish = false

[dependencies]
sqlparser = "0.54"
tokio = { version = "1", features = ["rt-multi-thread", "macros", "sync"] }
quinn = "0.10"
rustls = "0.21"
rcgen = "0.11"
