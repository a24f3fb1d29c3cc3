[package]
name = "tera"
version = "0.1.0"
edition = "2021"
publish = false

[dependencies]
path-clean = "*"
regex = "1"
hyper = { version = "0.14", features = ["stream"] }
deno_core = "0.102"
tokio = { version = "1", features = ["full"] }
tokio-util = { version = "0.6", features = ["io"] }
futures-util = "0.3"
futures-core = "0.3"
serde = { version = "1", features = ["derive"] }
log = "0.4"
lazy_static = "1"
