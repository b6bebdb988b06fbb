[package]
name = "dynasty"
version = "0.1.0"
edition = "2021"
publish = false

[dependencies]
advise = "*"
anyhow = "*"
async-compat = "*"
clap = { version = "*", features = ["derive"] }
clap-verbosity-flag = "*"
dirs = "*"
env_logger = "*"
futures = "*"
http = "*"
log = "*"
reqwest = { version = "*", default-features = false }
serde = { version = "*", features = ["derive"] }
serde_json = "*"
shlex = "*"
smol = "*"
strum = { version = "*", features = ["derive"] }
sysexits = "*"
thiserror = "*"
toml = "*"
url = "*"
xdir = "*"
