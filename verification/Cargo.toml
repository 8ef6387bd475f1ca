[package]
name = "vector_core"
version = "0.1.0"
edition = "2021"
publish = false

[dependencies]
tinyvec = { version = "1", features = ["alloc"] }
ash = { version = "0.37", default-features = false }
