[package]
name = "bestbind"
version = "0.1.0"
edition = "2021"
publish = false

[dependencies]
anyhow = "*"
clap = { version = "*", features = ["derive"] }
dirs = "*"
fs_extra = "*"
libc = "*"
mktemp = "*"
rand = "*"
serde = { version = "*", features = ["derive"] }
shlex = "*"
signal-hook = "*"
toml = "*"
xdg = "*"
