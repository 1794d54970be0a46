[package]
name = "represent"
version = "0.1.0"
edition = "2021"
publish = false

[dependencies]
bytemuck = "1"
derivative = "2"
proc-macro2 = "1"
quote = "1"
serde = { version = "1", features = ["derive"] }
syn = { version = "1", features = ["full", "extra-traits"] }
synstructure = "0.12"
