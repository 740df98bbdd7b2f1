[package]
name = "slashcmd"
version = "0.1.0"
edition = "2021"
publish = false

[dependencies]
serde = { version = "=1.0.229", features = ["derive"] }
serde_json = "=1.0.151"
ureq = { version = "=2.12.1", features = ["json"] }
crossterm = "=0.28.1"
dirs = "=5.0.1"
clap = { version = "=4.6.7", features = ["derive"] }
