[package]
name = "fyr"
version = "1.0.0"
edition = "2021"
publish = false

[dependencies]
anyhow = "*"
chrono = "*"
clap = { version = "*", features = ["derive"] }
clearscreen = "*"
colored = "*"
confy = "*"
dialoguer = "*"
ignore = "*"
notify = "*"
serde = { version = "*", features = ["derive"] }
shell-words = "*"
terminal_size = "*"
toml = "*"
walkdir = "*"
which = "*"
