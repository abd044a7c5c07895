[package]
name = "ir_hasher"
version = "0.1.0"
edition = "2021"
publish = false

[dependencies]
anyhow = "=1.0.104"
cowstr = { version = "=1.3.0", features = ["serde"] }
serde = { version = "=1.0.229", features = ["derive", "rc"] }
strum = { version = "=0.27.2", features = ["derive"] }
ts-rs = "=11.1.0"
