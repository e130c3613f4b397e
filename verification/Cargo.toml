[package]
name = "plzplz"
version = "0.1.0"
edition = "2021"
publish = false

[dependencies]
anyhow = "1"
axoupdater = { version = "*", default-features = false, features = ["blocking", "github_releases"] }
clap = { version = "4", features = ["derive"] }
cliclack = "*"
crossterm = "*"
dirs = "*"
is_ci = "1"
schemars = "1"
serde = { version = "1", features = ["derive"] }
serde_json = "1"
shlex = "1"
toml_edit = { version = "0.22", features = ["serde"] }
