[package]
name = "wheatley"
version = "0.1.0"
edition = "2021"
publish = false

[dependencies]
doryen-extra = { version = "=0.2.1", default-features = false, features = ["rng_support"] }
rand = "=0.8.8"
doryen-rs = "*"
serde = { version = "*", features = ["derive"] }
serde_derive = "*"
toml = "*"
