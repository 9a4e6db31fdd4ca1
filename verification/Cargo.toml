[package]
name = "hala"
version = "0.1.0"
edition = "2021"
publish = false

[dependencies]
http = "1"
bytes = "1"
dashmap = "5"
futures = "0.3"
log = "0.4"
thiserror = "1"
quiche = "*"
ring = "0.17"
rand = "0.8"
clap = { version = "4", features = ["derive"] }
duration-str = "*"
serde = { version = "1", features = ["derive"] }
serde_json = "1"
num_cpus = "1"
pretty_env_logger = "0.5"
async-trait = "0.1"
bitmask-enum = "2"
leveldb-sys = "*"
