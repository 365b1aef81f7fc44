[package]
name = "coder"
version = "0.1.0"
edition = "2021"
publish = false

[dependencies]
git2 = { version = "=0.21.0", default-features = false }
toml = "=1.1.8"
regex = "=1.13.1"
serde_json = "=1.0.154"
arboard = "=3.7.0"
ignore = "=0.4.34"
crossterm = "=0.29.0"
anyhow = "=1.0.104"
ratatui = { version = "=0.30.2", default-features = false }
vt100 = "=0.18.1"
syntect = { version = "=5.3.0", default-features = false, features = ["default-syntaxes", "default-themes", "regex-fancy", "plist-load", "yaml-load"] }
