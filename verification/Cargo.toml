[package]
name = "dev-suite"
version = "0.1.0"
edition = "2021"
publish = false

[dependencies]
anyhow = "1"
chrono = "0.4"
colored = "1"
crossterm = "0.14"
dialoguer = "0.5"
dirs = "2"
git2 = { version = "0.11", default-features = false }
log = "0.4"
paw = "1"
pretty_env_logger = "0.3"
rand = "0.7"
reqwest = { version = "0.10", features = ["blocking"] }
rustyline = "6"
serde = { version = "1", features = ["derive"] }
structopt = { version = "0.3", features = ["paw"] }
toml = { version = "0.5", features = ["preserve_order"] }
tui = { version = "0.8", default-features = false, features = ["crossterm"] }
unicode-segmentation = "1"
uuid = { version = "0.8", features = ["serde", "v1", "v4"] }
which = "3"
