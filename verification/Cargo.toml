[package]
name = "codex_tui_kit"
version = "0.1.0"
edition = "2021"
publish = false

[dependencies]
unicode-width = "=0.2.3"
textwrap = "=0.16.4"
pulldown-cmark = "=0.13.6"
shlex = "=1.3.0"
sha2 = "=0.10.9"
serde = { version = "=1.0.229", features = ["derive"] }
serde_json = "=1.0.154"
anyhow = "=1.0.104"
dunce = "=1.0.5"
chrono = { version = "0.4", features = ["serde"] }
