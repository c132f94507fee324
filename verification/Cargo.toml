[package]
name = "bronotdsaurs"
version = "0.1.0"
edition = "2021"
publish = false

[dependencies]
derive_builder = { version = "0.20", default-features = false, features = ["alloc"] }
tracing = { version = "0.1", default-features = false }
