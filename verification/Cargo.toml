[package]
name = "nepix"
version = "0.5.0"
edition = "2021"
publish = false

[dependencies]
anyhow = "=1.0.104"
crossterm = "=0.28.1"
directories = "=6.0.0"
lighty-launcher = { version = "=26.5.12", features = ["events", "vanilla", "fabric", "quilt", "forge", "neoforge", "modrinth"] }
lighty-auth = "=26.5.12"
lighty-core = "=26.5.12"
lighty-event = "=26.5.12"
lighty-java = "=26.5.12"
lighty-launch = "=26.5.12"
lighty-loaders = "=26.5.12"
lighty-modsloader = "=26.5.12"
lighty-version = "=26.5.12"
open = "=5.4.5"
ratatui = "=0.29.0"
reqwest = { version = "=0.13.5", default-features = false, features = ["json"] }
secrecy = "=0.10.3"
serde = { version = "=1.0.229", features = ["derive"] }
tokio = { version = "=1.54.1", features = ["rt-multi-thread", "macros", "sync", "time"] }
toml = "=1.1.8"
