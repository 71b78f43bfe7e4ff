[package]
name = "translation_bank"
version = "0.1.0"
edition = "2021"
publish = false

[dependencies]
prettyplease = "0.2"
proc-macro2 = "1"
serde = { version = "1", features = ["derive"] }
syn = { version = "2", features = ["full"] }
toml = "*"
