[package]
name = "orb8"
version = "0.1.0"
edition = "2021"
publish = false

[dependencies]
dashmap = "*"
bytes = "*"
tokio = { version = "*", features = ["rt-multi-thread", "macros", "signal", "sync", "time"] }
aya = "*"
anyhow = "*"
log = "*"
env_logger = "*"
libc = "*"
clap = { version = "*", features = ["derive"] }
serde = { version = "*", features = ["derive"] }
thiserror = "*"
hostname = "*"
async-trait = "*"
