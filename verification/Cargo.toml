[package]
name = "i3wsr_core"
version = "0.1.0"
edition = "2021"
publish = false

[dependencies]
regex = "=1.13.1"
swayipc = "=4.0.0"
clap = { version = "=4.6.7", features = ["derive"] }
dirs = "=7.0.0"
serde = { version = "=1.0.229", features = ["derive"] }
toml = { version = "=1.1.6", features = ["preserve_order"] }
colored = "=3.1.1"
