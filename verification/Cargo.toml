[package]
name = "rust_query"
version = "0.1.0"
edition = "2021"
publish = false

[dependencies]
rusqlite = { version = "*", features = ["bundled"] }
heck = "*"
proc-macro2 = "*"
quote = "*"
syn = { version = "*", features = ["full"] }
