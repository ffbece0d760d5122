[package]
name = "nbt_select"
version = "0.1.0"
edition = "2021"
publish = false

[dependencies]
fastnbt = "*"
flate2 = "*"
serde = { version = "*", features = ["derive"] }
serde_json = "*"
thiserror = "*"
