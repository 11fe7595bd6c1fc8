[package]
name = "vrcli"
version = "0.1.0"
edition = "2021"
publish = false

[dependencies]
anyhow = "*"
clap = { version = "*", features = ["derive"] }
colored = "=3.1.1"
dirs = "*"
futures = "*"
reqwest = { version = "*", features = ["cookies"] }
reqwest-middleware = "*"
serde = { version = "*", features = ["derive"] }
serde_json = "*"
tokio = { version = "*", features = ["macros", "rt-multi-thread", "time"] }
unicode-width = "=0.2.2"
url = "*"
vrchatapi = "=1.22.1"
