[package]
name = "turbocommit"
version = "0.1.0"
edition = "2021"
publish = false

[dependencies]
anyhow = "*"
atty = "*"
colored = "*"
crates_io_api = { version = "*", default-features = false, features = ["rustls"] }
crossterm = "*"
edit = "*"
futures = "*"
git2 = { version = "*", default-features = false }
home = "*"
inquire = "*"
jj-lib = "*"
pollster = "*"
reqwest = { version = "*", default-features = false, features = ["json"] }
serde = { version = "*", features = ["derive"] }
serde_json = "*"
serde_yaml = "*"
terminal-supports-emoji = "*"
tiktoken-rs = "*"
tokio = { version = "*", features = ["macros", "rt-multi-thread", "sync", "time", "io-util"] }
unicode-segmentation = "*"
url = "*"
