[package]
name = "openscq30"
version = "0.1.0"
edition = "2021"
publish = false

[dependencies]
async-trait = "0.1"
macaddr = "1"
thiserror = "2"
tokio = { version = "1", features = ["sync", "rt"] }
tracing = "0.1"
uuid = "1"
