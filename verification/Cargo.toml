[package]
name = "kv_persistence"
version = "0.1.0"
edition = "2021"
publish = false

[dependencies]
bytes = "1"
diesel = { version = "1.4", features = ["sqlite"] }
libsqlite3-sys = { version = "0.22", features = ["bundled"] }
