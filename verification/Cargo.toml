[package]
name = "crud_core"
version = "0.1.0"
edition = "2021"
publish = false

[dependencies]
async-stream = "0.3"
eyre = "0.6"
futures-core = "0.3"
futures-util = "0.3"
proc-macro2 = "1"
quote = "1"
sqlx = { version = "0.8", default-features = false, features = ["runtime-tokio", "sqlite"] }
syn = { version = "2", features = ["full"] }
tokio = { version = "1", features = ["rt"] }
