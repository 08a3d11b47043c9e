[package]
name = "gall"
version = "0.1.0"
edition = "2021"
publish = false

[dependencies]
clap = { version = "=4.6.7", features = ["derive"] }
gtk4 = "0.9"
libc = "=0.2.191"
serde = { version = "=1.0.229", features = ["derive"] }
toml = "=1.1.8"
