[package]
name = "paradox_typed_db"
version = "0.1.0"
edition = "2021"
publish = false

[dependencies]
assembly-fdb = "*"
latin1str = "*"
serde = { version = "*", features = ["derive"] }
