[package]
name = "git_history"
version = "0.1.0"
edition = "2021"
publish = false

[dependencies]
moka = { version = "0.12", features = ["sync"] }
once_cell = "1"
serde = { version = "1", features = ["derive"] }
git2 = { version = "*", default-features = false }
dirs = "*"
tauri = { version = "2", default-features = false }
