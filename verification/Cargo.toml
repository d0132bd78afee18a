[package]
name = "gitwire"
version = "0.1.0"
edition = "2021"
publish = false

[dependencies]
anyhow = "=1.0.104"
cause = "=0.1.2"
clap = { version = "=4.6.7", features = ["derive"] }
colored = "=3.1.1"
crossterm = "=0.29.0"
dirs = "=7.0.0"
env_logger = "=0.11.11"
folder_compare = "=0.4.0"
git2 = { version = "=0.21.0", default-features = false }
handlebars = "=6.4.4"
log = "=0.4.34"
serde = { version = "=1.0.229", features = ["derive"] }
serde_json = "=1.0.154"
temp-dir = "=0.2.0"
tiktoken-rs = "=0.12.1"
tokio = { version = "1", features = ["rt", "macros", "sync"] }
tui-textarea = "=0.7.0"
