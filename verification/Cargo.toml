[package]
name = "plexi"
version = "0.1.0"
edition = "2021"
publish = false

[dependencies]
sha2 = "0.10"
serde = { version = "1", features = ["derive"] }
serde_json = "1"
bincode = "1"
toml = "0.8"
toml_edit = "0.22"
dirs = "5"
log = "0.4"
uuid = { version = "1", features = ["v4"] }
chrono = "0.4"
ureq = "2"
thiserror = "1"
clap = { version = "4", features = ["derive"] }
libc = "0.2"
zeroize = "1"
include_dir = "0.7"
