[package]
name = "notes2"
version = "0.1.0"
edition = "2021"
publish = false

[dependencies]
anyhow = "1"
clap = { version = "4", features = ["derive"] }
crossbeam-channel = "0.5"
crossterm = "0.28"
iced = { version = "0.13", default-features = false, features = ["tokio"] }
notify = "6"
pulldown-cmark = { version = "0.9", default-features = false }
ratatui = "0.29"
serde = { version = "1", features = ["derive"] }
serde_yaml = "0.9"
tui-textarea = "0.7"
yaml-front-matter = "0.1"
