[package]
name = "arch_repo_builder"
version = "0.1.0"
edition = "2021"
publish = false

[dependencies]
clap = { version = "4", features = ["derive"] }
git2 = { version = "0.18", default-features = false }
libc = "0.2"
serde = { version = "1", features = ["derive"] }
serde_yaml = "0.9"
tempfile = "3"
