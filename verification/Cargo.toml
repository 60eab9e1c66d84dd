[package]
name = "pam_cli"
version = "0.1.0"
edition = "2021"
publish = false

[dependencies]
toml = "=1.1.6"
chrono = "=0.4.45"
rand = "=0.10.3"
anyhow = "=1.0.104"
clap = { version = "=4.6.7", features = ["derive", "env"] }
colored = "=3.1.1"
dialoguer = "=0.12.0"
dirs = "=7.0.0"
dotenvy = "=0.15.7"
reqwest = { version = "=0.13.5", default-features = false, features = ["query"] }
serde = { version = "=1.0.229", features = ["derive"] }
serde_json = "=1.0.151"
tokio = { version = "=1.53.2", features = ["macros", "rt-multi-thread"] }

[dev-dependencies]
