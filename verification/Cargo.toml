[package]
name = "dns_fallback_extract"
version = "0.1.0"
edition = "2021"
publish = false

[dependencies]
ar = "*"
asar = "*"
lzma-rs = "*"
tar = "*"
semver = "*"
anyhow = "*"
clap = { version = "*", features = ["derive"] }
env_logger = "*"
log = "*"
reqwest = { version = "*", default-features = false }
sh = "*"
tokio = { version = "*", features = ["macros", "rt-multi-thread"] }
