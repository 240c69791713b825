[package]
name = "skyblock_tools"
version = "0.1.0"
edition = "2021"
publish = false

[dependencies]
jandom = "*"
colored = "*"
serde = { version = "*", features = ["derive"] }
serde_json = "*"
tokio = { version = "*", features = ["macros", "rt-multi-thread"] }
reqwest = { version = "*", default-features = false }
futures = "*"
notify = "*"
notify-rust = "*"
arboard = { version = "*", default-features = false }
once_cell = "*"
home = "*"
nohash-hasher = "*"
rev_buf_reader = "*"
log = "*"
env_logger = { version = "*", default-features = false }
