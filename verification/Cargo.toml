[package]
name = "virt_addr_kernel"
version = "0.1.0"
edition = "2021"
publish = false

[dependencies]
clap = "*"
serde = { version = "*", features = ["derive"] }
spin = "*"
toml = "*"
