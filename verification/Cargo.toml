[package]
name = "git_conflict"
version = "0.1.0"
edition = "2021"
publish = false

[dependencies]
git2 = { version = "*", default-features = false }
ratatui = "*"
log = "*"
env_logger = "*"
