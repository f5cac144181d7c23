[package]
name = "shadox"
version = "0.1.0"
edition = "2021"
publish = false

[dependencies]
anyhow = "1"
clap = { version = "4", features = ["derive"] }
fuser = { version = "*", default-features = false }
libc = "0.2"
rhai = { version = "1", features = ["sync"] }
serde = { version = "1", features = ["derive"] }
serde_json = "1"
sha2 = "0.10"
toml = "*"
uuid = { version = "1", features = ["v4", "serde"] }
