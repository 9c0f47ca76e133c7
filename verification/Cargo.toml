[package]
name = "grimoire"
version = "0.4.0"
edition = "2021"
publish = false

[dependencies]
anyhow = "1"
clap = { version = "4", features = ["derive"] }
inquire = "*"
serde = { version = "1", features = ["derive"] }
tokio = { version = "1", features = ["process", "macros", "rt-multi-thread"] }
toml = { version = "*", features = ["preserve_order"] }
