[package]
name = "hypnagogic_core"
version = "0.1.0"
edition = "2021"
publish = false

[dependencies]
image = { version = "*", default-features = false, features = ["png"] }
toml = "*"
serde_yaml = "0.9"
dmi = "*"
serde = { version = "1", features = ["derive"] }
clap = { version = "4", features = ["derive"] }
walkdir = "2"
rayon = "1"
anyhow = "1"
tracing = "0.1"
tracing-subscriber = "0.3"
user-error = "*"
dont_disappear = "*"
